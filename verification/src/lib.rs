//! A minimal scripting-language front end and tree-walking interpreter.
//!
//! The crate lowers a generic, rule-tagged parse tree into a typed abstract
//! syntax tree ([`parser::Node`]) and evaluates a sequence of statements
//! against a stack of lexical scopes ([`executer::Heap`]), producing the
//! program's printed output as a sequence of text lines.

#![allow(non_camel_case_types)]

pub mod executer;
pub mod laws;
pub mod parser;
pub mod text;
