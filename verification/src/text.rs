//! Character classes of the proto lexical grammar, and small text utilities:
//! decimal conversion with the permissive overflow fallback, decimal rendering,
//! and conversions between `String` and character vectors.

use vstd::prelude::*;
use vstd::string::StrSliceExecFns;

verus! {

/// Errors reported by parsing and by the surrounding tooling.
#[derive(Debug)]
pub enum ParserError {
    /// The source text does not match the proto grammar; carries a description
    /// of the offending location.
    SyntaxError(String),
    /// A file could not be read; carries the reported reason.  Only the
    /// file-reading shell constructs this variant.
    IoError(String),
    /// The syntax tree could not be serialized.  The serializer is total, so
    /// this variant is never constructed; it exists to fix the error surface.
    SerializationError(String),
}

/// An ASCII letter.
pub open spec fn is_letter(c: char) -> bool {
    ('a' as u32 <= c as u32 && c as u32 <= 'z' as u32) || ('A' as u32 <= c as u32 && c as u32
        <= 'Z' as u32)
}

/// An ASCII decimal digit.
pub open spec fn is_digit(c: char) -> bool {
    '0' as u32 <= c as u32 && c as u32 <= '9' as u32
}

/// A character that may continue an identifier.
pub open spec fn is_ident_char(c: char) -> bool {
    is_letter(c) || is_digit(c) || c == '_'
}

/// Inter-token whitespace: space, tab, carriage return, newline.
pub open spec fn is_space(c: char) -> bool {
    c == ' ' || c == '\t' || c == '\r' || c == '\n'
}

/// A character allowed inside a string literal: the path-like characters.
pub open spec fn is_str_char(c: char) -> bool {
    is_letter(c) || is_digit(c) || c == '/' || c == '.' || c == '-' || c == '_'
}

pub(crate) fn ch_is_letter(c: char) -> (r: bool)
    ensures
        r == is_letter(c),
{
    let u: u32 = c as u32;
    ('a' as u32 <= u && u <= 'z' as u32) || ('A' as u32 <= u && u <= 'Z' as u32)
}

pub(crate) fn ch_is_digit(c: char) -> (r: bool)
    ensures
        r == is_digit(c),
{
    let u: u32 = c as u32;
    '0' as u32 <= u && u <= '9' as u32
}

pub(crate) fn ch_is_ident_char(c: char) -> (r: bool)
    ensures
        r == is_ident_char(c),
{
    ch_is_letter(c) || ch_is_digit(c) || c == '_'
}

pub(crate) fn ch_is_space(c: char) -> (r: bool)
    ensures
        r == is_space(c),
{
    c == ' ' || c == '\t' || c == '\r' || c == '\n'
}

pub(crate) fn ch_is_str_char(c: char) -> (r: bool)
    ensures
        r == is_str_char(c),
{
    ch_is_letter(c) || ch_is_digit(c) || c == '/' || c == '.' || c == '-' || c == '_'
}

/// The numeric value of a decimal digit character.
pub open spec fn digit_val(c: char) -> int {
    c as u32 as int - '0' as u32 as int
}

/// The value of a decimal digit string, most significant digit first.
pub open spec fn dec_val(s: Seq<char>) -> int
    decreases s.len(),
{
    if s.len() == 0 {
        0
    } else {
        dec_val(s.drop_last()) * 10 + digit_val(s.last())
    }
}

/// The tag or enum number denoted by a digit string: its decimal value where
/// that value is representable as a 32-bit signed integer, and `0` otherwise.
pub open spec fn tag_of(s: Seq<char>) -> int {
    if dec_val(s) <= i32::MAX {
        dec_val(s)
    } else {
        0
    }
}

pub(crate) proof fn lemma_dec_val_nonneg(s: Seq<char>)
    requires
        forall|k: int| 0 <= k < s.len() ==> is_digit(#[trigger] s[k]),
    ensures
        dec_val(s) >= 0,
    decreases s.len(),
{
    if s.len() > 0 {
        lemma_dec_val_nonneg(s.drop_last());
    }
}

/// Extending a digit string on the right cannot decrease its value.
pub(crate) proof fn lemma_dec_val_take_le(s: Seq<char>, i: int, j: int)
    requires
        0 <= i <= j <= s.len(),
        forall|k: int| 0 <= k < s.len() ==> is_digit(#[trigger] s[k]),
    ensures
        dec_val(s.take(i)) <= dec_val(s.take(j)),
    decreases j - i,
{
    if i < j {
        lemma_dec_val_take_le(s, i, j - 1);
        assert(s.take(j).drop_last() =~= s.take(j - 1));
        assert(forall|k: int| 0 <= k < s.take(j - 1).len() ==> is_digit(#[trigger] s.take(j - 1)[k]));
        lemma_dec_val_nonneg(s.take(j - 1));
    }
}

/// Reads a digit string as a field tag or enum number: the decimal value, or
/// `0` where that value overflows a 32-bit signed integer.
pub(crate) fn tag_value(digits: &Vec<char>) -> (r: i32)
    requires
        forall|k: int| 0 <= k < digits@.len() ==> is_digit(#[trigger] digits@[k]),
    ensures
        r as int == tag_of(digits@),
        r >= 0,
{
    let ghost s = digits@;
    let mut acc: u64 = 0;
    let mut i: usize = 0;
    while i < digits.len()
        invariant
            0 <= i <= s.len(),
            s == digits@,
            forall|k: int| 0 <= k < s.len() ==> is_digit(#[trigger] s[k]),
            acc as int == dec_val(s.take(i as int)),
            acc <= i32::MAX,
        decreases s.len() - i,
    {
        let c = digits[i];
        let d: u32 = c as u32 - '0' as u32;
        let next: u64 = acc * 10 + d as u64;
        proof {
            assert(s.take(i + 1).drop_last() =~= s.take(i as int));
            assert(dec_val(s.take(i + 1)) == next as int);
        }
        if next > i32::MAX as u64 {
            proof {
                lemma_dec_val_take_le(s, i + 1, s.len() as int);
                assert(s.take(s.len() as int) =~= s);
            }
            return 0;
        }
        acc = next;
        i = i + 1;
    }
    proof {
        assert(s.take(s.len() as int) =~= s);
    }
    acc as i32
}

/// The character for a decimal digit value.
pub open spec fn digit_char(d: int) -> char {
    if d == 0 {
        '0'
    } else if d == 1 {
        '1'
    } else if d == 2 {
        '2'
    } else if d == 3 {
        '3'
    } else if d == 4 {
        '4'
    } else if d == 5 {
        '5'
    } else if d == 6 {
        '6'
    } else if d == 7 {
        '7'
    } else if d == 8 {
        '8'
    } else {
        '9'
    }
}

/// The decimal rendering of a non-negative integer, without leading zeros.
pub open spec fn dec_str(n: int) -> Seq<char>
    decreases n,
{
    if n < 10 {
        seq![digit_char(n)]
    } else {
        dec_str(n / 10).push(digit_char(n % 10))
    }
}

fn exec_digit_char(d: u32) -> (c: char)
    requires
        d < 10,
    ensures
        c == digit_char(d as int),
{
    if d == 0 {
        '0'
    } else if d == 1 {
        '1'
    } else if d == 2 {
        '2'
    } else if d == 3 {
        '3'
    } else if d == 4 {
        '4'
    } else if d == 5 {
        '5'
    } else if d == 6 {
        '6'
    } else if d == 7 {
        '7'
    } else if d == 8 {
        '8'
    } else {
        '9'
    }
}

/// Relies on `String::push`: appends exactly the one character.
#[verifier::external_body]
pub(crate) fn push_char(s: &mut String, c: char)
    ensures
        final(s)@ == old(s)@.push(c),
{
    s.push(c);
}

pub(crate) fn render_u64(n: u64) -> (s: String)
    ensures
        s@ == dec_str(n as int),
    decreases n,
{
    if n < 10 {
        let mut s = String::new();
        push_char(&mut s, exec_digit_char(n as u32));
        proof {
            assert(s@ =~= dec_str(n as int));
        }
        s
    } else {
        let mut s = render_u64(n / 10);
        push_char(&mut s, exec_digit_char((n % 10) as u32));
        s
    }
}

/// The decimal rendering of an integer, with a leading minus sign when it is
/// negative.
pub open spec fn int_str(n: int) -> Seq<char> {
    if n < 0 {
        "-"@ + dec_str(-n)
    } else {
        dec_str(n)
    }
}

/// Renders a tag or enum number in decimal.
pub(crate) fn render_tag(n: i32) -> (s: String)
    ensures
        s@ == int_str(n as int),
{
    if n < 0 {
        let mut s = "-".to_owned();
        let rest = render_u64((-(n as i64)) as u64);
        s.append(rest.as_str());
        s
    } else {
        render_u64(n as u64)
    }
}

/// Builds a `String` holding exactly the given characters.
pub(crate) fn chars_to_string(v: &Vec<char>) -> (s: String)
    ensures
        s@ == v@,
{
    let mut s = String::new();
    let mut i: usize = 0;
    while i < v.len()
        invariant
            0 <= i <= v@.len(),
            s@ == v@.take(i as int),
        decreases v@.len() - i,
    {
        push_char(&mut s, v[i]);
        proof {
            assert(v@.take(i as int).push(v@[i as int]) =~= v@.take(i + 1));
        }
        i = i + 1;
    }
    proof {
        assert(v@.take(v@.len() as int) =~= v@);
    }
    s
}

/// Collects the characters of a string slice into a vector.
pub(crate) fn str_to_chars(s: &str) -> (v: Vec<char>)
    ensures
        v@ == s@,
{
    let n: usize = s.unicode_len();
    let mut v: Vec<char> = Vec::new();
    let mut i: usize = 0;
    while i < n
        invariant
            0 <= i <= n,
            n == s@.len(),
            v@ == s@.take(i as int),
        decreases n - i,
    {
        v.push(s.get_char(i));
        proof {
            assert(s@.take(i as int).push(s@[i as int]) =~= s@.take(i + 1));
        }
        i = i + 1;
    }
    proof {
        assert(s@.take(s@.len() as int) =~= s@);
    }
    v
}

} // verus!
