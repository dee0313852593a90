//! Characters and strings: the classes of characters the tokenizer tells
//! apart, and the few string operations the library needs.
//!
//! Within ASCII the classes are stated here in full. Beyond ASCII they are
//! what the standard library takes from Unicode.

use vstd::prelude::*;
use vstd::string::StringExecFns;

verus! {

/// What `char::is_whitespace` answers for `c`. The library asks it of the
/// characters beyond ASCII.
pub uninterp spec fn unicode_whitespace(c: char) -> bool;

/// What `char::is_alphabetic` answers for `c`. The library asks it of the
/// characters beyond ASCII.
pub uninterp spec fn unicode_alphabetic(c: char) -> bool;

/// What `char::is_alphanumeric` answers for `c`. The library asks it of
/// the characters beyond ASCII.
pub uninterp spec fn unicode_alphanumeric(c: char) -> bool;

/// A character of the first 128.
pub open spec fn is_ascii(c: char) -> bool {
    c <= '\x7f'
}

/// White space: in ASCII the space and the characters from the tabulator to
/// the carriage return; beyond ASCII what Unicode says.
pub open spec fn char_is_whitespace(c: char) -> bool {
    if is_ascii(c) {
        c == ' ' || ('\t' <= c && c <= '\r')
    } else {
        unicode_whitespace(c)
    }
}

/// Alphabetic: in ASCII the letters; beyond ASCII what Unicode says.
pub open spec fn char_is_alphabetic(c: char) -> bool {
    if is_ascii(c) {
        ('a' <= c && c <= 'z') || ('A' <= c && c <= 'Z')
    } else {
        unicode_alphabetic(c)
    }
}

/// Alphabetic or numeric: in ASCII the letters and the digits; beyond ASCII
/// what Unicode says.
pub open spec fn char_is_alphanumeric(c: char) -> bool {
    if is_ascii(c) {
        ('a' <= c && c <= 'z') || ('A' <= c && c <= 'Z') || ('0' <= c && c <= '9')
    } else {
        unicode_alphanumeric(c)
    }
}

/// Calls `char::is_whitespace`. The answer depends on `c` alone; the
/// contract names it.
#[verifier::external_body]
fn whitespace_in_unicode(c: char) -> (yes: bool)
    ensures
        yes == unicode_whitespace(c),
{
    c.is_whitespace()
}

/// Calls `char::is_alphabetic`. The answer depends on `c` alone; the
/// contract names it.
#[verifier::external_body]
fn alphabetic_in_unicode(c: char) -> (yes: bool)
    ensures
        yes == unicode_alphabetic(c),
{
    c.is_alphabetic()
}

/// Calls `char::is_alphanumeric`. The answer depends on `c` alone; the
/// contract names it.
#[verifier::external_body]
fn alphanumeric_in_unicode(c: char) -> (yes: bool)
    ensures
        yes == unicode_alphanumeric(c),
{
    c.is_alphanumeric()
}

/// Whether `c` is white space.
pub fn is_whitespace(c: char) -> (yes: bool)
    ensures
        yes == char_is_whitespace(c),
{
    if c <= '\x7f' {
        c == ' ' || (c >= '\t' && c <= '\r')
    } else {
        whitespace_in_unicode(c)
    }
}

/// Whether `c` is alphabetic.
pub fn is_alphabetic(c: char) -> (yes: bool)
    ensures
        yes == char_is_alphabetic(c),
{
    if c <= '\x7f' {
        (c >= 'a' && c <= 'z') || (c >= 'A' && c <= 'Z')
    } else {
        alphabetic_in_unicode(c)
    }
}

/// Whether `c` is alphabetic or numeric.
pub fn is_alphanumeric(c: char) -> (yes: bool)
    ensures
        yes == char_is_alphanumeric(c),
{
    if c <= '\x7f' {
        (c >= 'a' && c <= 'z') || (c >= 'A' && c <= 'Z') || (c >= '0' && c <= '9')
    } else {
        alphanumeric_in_unicode(c)
    }
}

/// `String::push` appends one character at the end of the string.
pub assume_specification[ std::string::String::push ](s: &mut std::string::String, ch: char)
    ensures
        final(s)@ == old(s)@.push(ch),
;

/// A decimal digit, `0` to `9`.
pub open spec fn is_digit(c: char) -> bool {
    '0' <= c <= '9'
}

/// One of the eight characters that operators are made of.
pub open spec fn is_operator_char(c: char) -> bool {
    c == '=' || c == '!' || c == '<' || c == '>' || c == '+' || c == '-' || c == '*' || c == '/'
}

/// A character of a symbol after its first: alphanumeric or an underscore.
pub open spec fn is_symbol_char(c: char) -> bool {
    char_is_alphanumeric(c) || c == '_'
}

/// Whether `c` is a decimal digit.
pub fn digit(c: char) -> (yes: bool)
    ensures
        yes == is_digit(c),
{
    c >= '0' && c <= '9'
}

/// Whether `c` is one of the characters that operators are made of.
pub fn operator_char(c: char) -> (yes: bool)
    ensures
        yes == is_operator_char(c),
{
    c == '=' || c == '!' || c == '<' || c == '>' || c == '+' || c == '-' || c == '*' || c == '/'
}

/// Whether `c` can stand in a symbol after its first character.
pub fn symbol_char(c: char) -> (yes: bool)
    ensures
        yes == is_symbol_char(c),
{
    is_alphanumeric(c) || c == '_'
}

/// The characters of `source`, in order.
pub fn characters(source: &str) -> (out: Vec<char>)
    ensures
        out@ == source@,
{
    let mut out: Vec<char> = Vec::new();
    for c in it: source.chars()
        invariant
            out@ == it.seq().take(it.index()),
            it.seq() == source@,
    {
        out.push(c);
    }
    out
}

/// The characters of `source` from `start` up to `end`, as a string.
pub fn substring(source: &Vec<char>, start: usize, end: usize) -> (out: String)
    requires
        start <= end <= source.len(),
    ensures
        out@ == source@.subrange(start as int, end as int),
{
    let mut out = String::new();
    let mut i: usize = start;
    while i < end
        invariant
            start <= i <= end <= source.len(),
            out@ == source@.subrange(start as int, i as int),
        decreases end - i,
    {
        out.push(source[i]);
        i += 1;
    }
    out
}

/// Whether `text` reads exactly `word`.
pub fn reads(text: &String, word: &str) -> (yes: bool)
    ensures
        yes == (text@ == word@),
{
    let other = String::from_str(word);
    *text == other
}

/// `before`, then `middle`, then `after`.
pub fn enclose(before: &str, middle: &String, after: &str) -> (out: String)
    ensures
        out@ == before@ + middle@ + after@,
{
    let mut out = String::from_str(before);
    out.append(middle.as_str());
    out.append(after);
    out
}

/// The decimal digits of `n`, most significant first.
pub open spec fn decimal(n: nat) -> Seq<char>
    decreases n,
{
    if n < 10 {
        seq![digit_char(n)]
    } else {
        decimal(n / 10).push(digit_char(n % 10))
    }
}

/// The character that stands for a digit below ten.
pub open spec fn digit_char(d: nat) -> char {
    if d == 0 {
        '0'
    } else if d == 1 {
        '1'
    } else if d == 2 {
        '2'
    } else if d == 3 {
        '3'
    } else if d == 4 {
        '4'
    } else if d == 5 {
        '5'
    } else if d == 6 {
        '6'
    } else if d == 7 {
        '7'
    } else if d == 8 {
        '8'
    } else {
        '9'
    }
}

fn digit_of(d: usize) -> (c: char)
    requires
        d < 10,
    ensures
        c == digit_char(d as nat),
{
    if d == 0 {
        '0'
    } else if d == 1 {
        '1'
    } else if d == 2 {
        '2'
    } else if d == 3 {
        '3'
    } else if d == 4 {
        '4'
    } else if d == 5 {
        '5'
    } else if d == 6 {
        '6'
    } else if d == 7 {
        '7'
    } else if d == 8 {
        '8'
    } else {
        '9'
    }
}

/// `n` written in decimal.
pub fn decimal_text(n: usize) -> (out: String)
    ensures
        out@ == decimal(n as nat),
    decreases n,
{
    if n < 10 {
        let mut out = String::new();
        out.push(digit_of(n));
        out
    } else {
        let mut out = decimal_text(n / 10);
        out.push(digit_of(n % 10));
        out
    }
}

} // verus!
