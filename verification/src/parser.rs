//! The front end: AST nodes and the lowering from a generic parse tree.

pub mod lowering;
pub mod node;

pub use lowering::{parse, LoweringError, ParseTree, Rule};
pub use node::{AssignmentOperator, ComparisonOperator, EvalError, LogicalOperator, Node, NodeV, eType};
