//! Text helpers: decimal rendering and parsing, and character-level string
//! building. Every value the interpreter prints or concatenates goes through
//! these functions.

use vstd::prelude::*;
use vstd::std_specs::iter::IteratorSpec;

verus! {

/// The character for one decimal digit.
pub open spec fn digit_char(d: nat) -> char {
    if d == 0 {
        '0'
    } else if d == 1 {
        '1'
    } else if d == 2 {
        '2'
    } else if d == 3 {
        '3'
    } else if d == 4 {
        '4'
    } else if d == 5 {
        '5'
    } else if d == 6 {
        '6'
    } else if d == 7 {
        '7'
    } else if d == 8 {
        '8'
    } else {
        '9'
    }
}

/// Decimal text of a natural number, most significant digit first, no sign
/// and no leading zeros (except for zero itself).
pub open spec fn dec_digits(n: nat) -> Seq<char>
    decreases n,
{
    if n < 10 {
        seq![digit_char(n)]
    } else {
        dec_digits(n / 10).push(digit_char(n % 10))
    }
}

/// Decimal text of an integer: a minus sign for negatives, then the digits.
pub open spec fn int_text(n: int) -> Seq<char> {
    if n < 0 {
        seq!['-'] + dec_digits((-n) as nat)
    } else {
        dec_digits(n as nat)
    }
}

/// The text of a boolean.
pub open spec fn bool_text(b: bool) -> Seq<char> {
    if b {
        "true"@
    } else {
        "false"@
    }
}

/// Relies on String::push: appends the given character to the end of the
/// string.
#[verifier::external_body]
pub(crate) fn push_char(s: &mut String, c: char)
    ensures
        final(s)@ == old(s)@.push(c),
{
    s.push(c);
}

/// Appends every character of `v`, in order.
pub fn append_chars(s: &mut String, v: &Vec<char>)
    ensures
        final(s)@ == old(s)@ + v@,
{
    let mut i: usize = 0;
    while i < v.len()
        invariant
            i <= v.len(),
            s@ == old(s)@ + v@.take(i as int),
        decreases v.len() - i,
    {
        push_char(s, v[i]);
        proof {
            assert(old(s)@ + v@.take(i + 1) =~= (old(s)@ + v@.take(i as int)).push(v@[i as int]));
        }
        i = i + 1;
    }
    proof {
        assert(old(s)@ + v@.take(v@.len() as int) =~= old(s)@ + v@);
    }
}

fn digit_of(d: u32) -> (c: char)
    requires
        d < 10,
    ensures
        c == digit_char(d as nat),
{
    if d == 0 {
        '0'
    } else if d == 1 {
        '1'
    } else if d == 2 {
        '2'
    } else if d == 3 {
        '3'
    } else if d == 4 {
        '4'
    } else if d == 5 {
        '5'
    } else if d == 6 {
        '6'
    } else if d == 7 {
        '7'
    } else if d == 8 {
        '8'
    } else {
        '9'
    }
}

/// Appends the decimal digits of `n`.
pub fn push_u32_text(n: u32, s: &mut String)
    ensures
        final(s)@ == old(s)@ + dec_digits(n as nat),
    decreases n,
{
    if n >= 10 {
        push_u32_text(n / 10, s);
        push_char(s, digit_of(n % 10));
        proof {
            assert(old(s)@ + dec_digits(n as nat) =~= (old(s)@ + dec_digits((n / 10) as nat)).push(
                digit_char((n % 10) as nat),
            ));
        }
    } else {
        push_char(s, digit_of(n));
        proof {
            assert(old(s)@ + dec_digits(n as nat) =~= old(s)@.push(digit_char(n as nat)));
        }
    }
}

/// Appends the decimal text of `n`, sign included.
pub fn push_i32_text(n: i32, s: &mut String)
    ensures
        final(s)@ == old(s)@ + int_text(n as int),
{
    if n < 0 {
        push_char(s, '-');
        let m: u32 = (-(n as i64)) as u32;
        push_u32_text(m, s);
        proof {
            assert(old(s)@ + int_text(n as int) =~= old(s)@.push('-') + dec_digits(
                (-(n as int)) as nat,
            ));
        }
    } else {
        push_u32_text(n as u32, s);
    }
}

/// The decimal text of `n` as a fresh string.
pub fn i32_text(n: i32) -> (r: String)
    ensures
        r@ == int_text(n as int),
{
    let mut s = String::new();
    push_i32_text(n, &mut s);
    proof {
        assert(Seq::<char>::empty() + int_text(n as int) =~= int_text(n as int));
    }
    s
}

/// Whether two string slices hold the same characters.
pub fn str_eq(a: &str, b: &str) -> (r: bool)
    ensures
        r == (a@ == b@),
{
    let x = a.to_owned();
    let y = b.to_owned();
    x == y
}

/// The characters of a string slice, in order.
pub fn string_chars(s: &str) -> (v: Vec<char>)
    ensures
        v@ == s@,
{
    broadcast use vstd::string::group_string_axioms;

    let mut v: Vec<char> = Vec::new();
    let mut it = s.chars();
    let mut done = false;
    while !done
        invariant
            v@ + it.remaining() == s@,
            done ==> it.remaining().len() == 0,
        decreases s@.len() - v@.len() + (if done { 0int } else { 1 }),
    {
        let ghost prev = v@;
        let ghost rem = it.remaining();
        match it.next() {
            Option::Some(c) => {
                v.push(c);
                proof {
                    assert(prev.push(c) + rem.drop_first() =~= prev + rem);
                }
            },
            Option::None => {
                done = true;
            },
        }
    }
    proof {
        assert(v@ + it.remaining() =~= v@);
    }
    v
}

/// The concatenation of two strings as a fresh string.
pub fn concat_text(a: &String, b: &String) -> (r: String)
    ensures
        r@ == a@ + b@,
{
    let mut r = a.clone();
    let cs = string_chars(b.as_str());
    append_chars(&mut r, &cs);
    r
}

/// Whether a character is a decimal digit.
pub open spec fn is_dec_digit(c: char) -> bool {
    48 <= c as u32 && c as u32 <= 57
}

/// Whether every character of `s` is a decimal digit.
pub open spec fn all_dec_digits(s: Seq<char>) -> bool {
    forall|i: int| 0 <= i < s.len() ==> is_dec_digit(s[i])
}

/// The value of a digit string read in base ten.
pub open spec fn digits_value(s: Seq<char>) -> int
    decreases s.len(),
{
    if s.len() == 0 {
        0
    } else {
        digits_value(s.drop_last()) * 10 + (s.last() as u32 - 48)
    }
}

/// The 32-bit signed integer denoted by `s`: an optional sign, then at least
/// one digit, with the value in range; anything else denotes nothing.
pub open spec fn int_of_text(s: Seq<char>) -> Option<int> {
    let neg = s.len() > 0 && s[0] == '-';
    let ds = if s.len() > 0 && (s[0] == '-' || s[0] == '+') {
        s.drop_first()
    } else {
        s
    };
    if ds.len() == 0 || !all_dec_digits(ds) {
        Option::None
    } else {
        let v: int = if neg {
            -digits_value(ds)
        } else {
            digits_value(ds)
        };
        if i32::MIN <= v && v <= i32::MAX {
            Option::Some(v)
        } else {
            Option::None
        }
    }
}

/// Reads a 32-bit signed decimal integer, exactly as [`int_of_text`] says.
pub fn parse_i32(s: &str) -> (r: Option<i32>)
    ensures
        match r {
            Option::Some(v) => int_of_text(s@) == Option::Some(v as int),
            Option::None => int_of_text(s@) is None,
        },
{
    let cs = string_chars(s);
    let mut start: usize = 0;
    let mut neg = false;
    if cs.len() > 0 && (cs[0] == '-' || cs[0] == '+') {
        neg = cs[0] == '-';
        start = 1;
    }
    let ghost ds = if start == 1 { s@.drop_first() } else { s@ };
    if cs.len() == start {
        return Option::None;
    }
    let mut acc: u64 = 0;
    let mut over = false;
    let mut j: usize = start;
    while j < cs.len()
        invariant
            cs@ == s@,
            start <= j <= cs.len(),
            start == 0 || start == 1,
            start == 1 ==> cs@.len() > 0,
            (start == 1) == (s@.len() > 0 && (s@[0] == '-' || s@[0] == '+')),
            neg == (s@.len() > 0 && s@[0] == '-'),
            ds == if start == 1 { s@.drop_first() } else { s@ },
            all_dec_digits(ds.take(j - start)),
            !over ==> acc == digits_value(ds.take(j - start)) && acc <= 0x8000_0000,
            over ==> digits_value(ds.take(j - start)) > 0x8000_0000,
        decreases cs.len() - j,
    {
        let u = cs[j] as u32;
        if u < 48 || u > 57 {
            proof {
                assert(ds[j - start] == cs@[j as int]);
                assert(!is_dec_digit(ds[j - start]));
            }
            return Option::None;
        }
        let d = (u - 48) as u64;
        proof {
            assert(ds.take(j - start + 1).drop_last() =~= ds.take(j - start));
            assert(ds.take(j - start + 1).last() == cs@[j as int]);
        }
        if over {
            proof {
                let dv = digits_value(ds.take(j - start));
                assert(digits_value(ds.take(j - start + 1)) == dv * 10 + d);
                assert(dv * 10 >= dv) by {
                    assert(dv * 10 - dv == dv * 9);
                    assert(dv * 9 >= 0);
                }
            }
        } else {
            let na = acc * 10 + d;
            if na > 0x8000_0000 {
                over = true;
            } else {
                acc = na;
            }
        }
        j = j + 1;
    }
    proof {
        assert(ds.take(cs.len() - start) =~= ds);
    }
    if over {
        return Option::None;
    }
    if neg {
        if acc == 0x8000_0000 {
            Option::Some(i32::MIN)
        } else {
            Option::Some(-(acc as i32))
        }
    } else {
        if acc > 0x7fff_ffff {
            Option::None
        } else {
            Option::Some(acc as i32)
        }
    }
}

} // verus!
