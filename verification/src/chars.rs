//! Character classes of the lexer.
//!
//! Inside the ASCII range every class is spelled out here. Beyond it the
//! three Unicode-aware classes defer to the tables of the standard library.

use vstd::prelude::*;

verus! {

/// The answer of `char::is_alphabetic` for `c`.
pub uninterp spec fn std_is_alphabetic(c: char) -> bool;

/// The answer of `char::is_numeric` for `c`.
pub uninterp spec fn std_is_numeric(c: char) -> bool;

/// The answer of `char::is_whitespace` for `c`.
pub uninterp spec fn std_is_whitespace(c: char) -> bool;

/// Trusted: `char::is_alphabetic` is a function of its argument alone, and
/// `std_is_alphabetic` is the name of what it returns. Nothing else is claimed.
pub assume_specification[ std::primitive::char::is_alphabetic ](c: char) -> (b: bool)
    ensures
        b == std_is_alphabetic(c),
;

/// Trusted: `char::is_numeric` is a function of its argument alone, and
/// `std_is_numeric` is the name of what it returns. Nothing else is claimed.
pub assume_specification[ std::primitive::char::is_numeric ](c: char) -> (b: bool)
    ensures
        b == std_is_numeric(c),
;

/// Trusted: `char::is_whitespace` is a function of its argument alone, and
/// `std_is_whitespace` is the name of what it returns. Nothing else is claimed.
pub assume_specification[ std::primitive::char::is_whitespace ](c: char) -> (b: bool)
    ensures
        b == std_is_whitespace(c),
;

/// `c` lies in the ASCII range.
pub open spec fn ascii(c: char) -> bool {
    c <= '\x7f'
}

/// White space: blank and the control characters from tab to carriage
/// return; beyond ASCII, what the standard library calls white space.
pub open spec fn whitespace(c: char) -> bool {
    if ascii(c) {
        c == ' ' || ('\t' <= c && c <= '\r')
    } else {
        std_is_whitespace(c)
    }
}

/// A letter: `a` to `z` and `A` to `Z`; beyond ASCII, what the standard
/// library calls alphabetic.
pub open spec fn letter(c: char) -> bool {
    if ascii(c) {
        ('a' <= c && c <= 'z') || ('A' <= c && c <= 'Z')
    } else {
        std_is_alphabetic(c)
    }
}

/// A digit: `0` to `9`; beyond ASCII, what the standard library calls numeric.
pub open spec fn digit(c: char) -> bool {
    if ascii(c) {
        '0' <= c && c <= '9'
    } else {
        std_is_numeric(c)
    }
}

/// May start an identifier: a letter or an underscore.
pub open spec fn alpha(c: char) -> bool {
    letter(c) || c == '_'
}

/// May stand in a number literal: a digit or an underscore.
pub open spec fn numeric(c: char) -> bool {
    digit(c) || c == '_'
}

/// May continue an identifier.
pub open spec fn alphanumeric(c: char) -> bool {
    alpha(c) || numeric(c)
}

/// Separates the segments of a dotted path.
pub open spec fn path_separator(c: char) -> bool {
    c == '.'
}

/// May stand in an identifier or a path.
pub open spec fn name_char(c: char) -> bool {
    alphanumeric(c) || path_separator(c)
}

/// The assignment sign.
pub open spec fn assignment(c: char) -> bool {
    c == '='
}

/// Ends a statement.
pub open spec fn terminator(c: char) -> bool {
    c == ';'
}

/// The reserved separator.
pub open spec fn separator(c: char) -> bool {
    c == ','
}

/// Starts a line comment.
pub open spec fn comment(c: char) -> bool {
    c == '#'
}

/// Stands inside a comment: anything but the newline that ends it.
pub open spec fn comment_char(c: char) -> bool {
    c != '\n'
}

/// One of the three quote characters.
pub open spec fn quote(c: char) -> bool {
    c == '`' || c == '\'' || c == '"'
}

/// One of the three opening brackets.
pub open spec fn block_start(c: char) -> bool {
    c == '(' || c == '[' || c == '{'
}

/// One of the three closing brackets.
pub open spec fn block_end(c: char) -> bool {
    c == ')' || c == ']' || c == '}'
}

/// May stand in an operator sigil.
pub open spec fn symbol(c: char) -> bool {
    c == '+' || c == '-' || c == '*' || c == '/' || c == '%' || c == '<' || c == '>' || c == '='
        || c == '&' || c == '|' || c == '^' || c == '~'
}

/// Whether `c` lies in the ASCII range.
pub fn is_ascii(c: char) -> (b: bool)
    ensures
        b == ascii(c),
{
    c <= '\x7f'
}

/// Whether `c` is white space.
pub fn is_whitespace(c: char) -> (b: bool)
    ensures
        b == whitespace(c),
{
    if is_ascii(c) {
        c == ' ' || ('\t' <= c && c <= '\r')
    } else {
        c.is_whitespace()
    }
}

/// Whether `c` is a letter.
pub fn is_letter(c: char) -> (b: bool)
    ensures
        b == letter(c),
{
    if is_ascii(c) {
        ('a' <= c && c <= 'z') || ('A' <= c && c <= 'Z')
    } else {
        c.is_alphabetic()
    }
}

/// Whether `c` is a digit.
pub fn is_digit(c: char) -> (b: bool)
    ensures
        b == digit(c),
{
    if is_ascii(c) {
        '0' <= c && c <= '9'
    } else {
        c.is_numeric()
    }
}

/// Whether `c` may start an identifier.
pub fn is_alpha(c: char) -> (b: bool)
    ensures
        b == alpha(c),
{
    is_letter(c) || c == '_'
}

/// Whether `c` may stand in a number literal.
pub fn is_numeric(c: char) -> (b: bool)
    ensures
        b == numeric(c),
{
    is_digit(c) || c == '_'
}

/// Whether `c` may continue an identifier.
pub fn is_alphanumeric(c: char) -> (b: bool)
    ensures
        b == alphanumeric(c),
{
    is_alpha(c) || is_numeric(c)
}

/// Whether `c` separates the segments of a path.
pub fn is_path_separator(c: char) -> (b: bool)
    ensures
        b == path_separator(c),
{
    c == '.'
}

/// Whether `c` may stand in an identifier or a path.
pub fn is_name_char(c: char) -> (b: bool)
    ensures
        b == name_char(c),
{
    is_alphanumeric(c) || is_path_separator(c)
}

/// Whether `c` is the assignment sign.
pub fn is_assignment(c: char) -> (b: bool)
    ensures
        b == assignment(c),
{
    c == '='
}

/// Whether `c` ends a statement.
pub fn is_terminator(c: char) -> (b: bool)
    ensures
        b == terminator(c),
{
    c == ';'
}

/// Whether `c` is the reserved separator.
pub fn is_separator(c: char) -> (b: bool)
    ensures
        b == separator(c),
{
    c == ','
}

/// Whether `c` starts a line comment.
pub fn is_comment(c: char) -> (b: bool)
    ensures
        b == comment(c),
{
    c == '#'
}

/// Whether `c` is one of the three quote characters.
pub fn is_quote(c: char) -> (b: bool)
    ensures
        b == quote(c),
{
    c == '`' || c == '\'' || c == '"'
}

/// Whether `c` is one of the three opening brackets.
pub fn is_block_start(c: char) -> (b: bool)
    ensures
        b == block_start(c),
{
    c == '(' || c == '[' || c == '{'
}

/// Whether `c` is one of the three closing brackets.
pub fn is_block_end(c: char) -> (b: bool)
    ensures
        b == block_end(c),
{
    c == ')' || c == ']' || c == '}'
}

/// Whether `c` may stand in an operator sigil.
pub fn is_symbol(c: char) -> (b: bool)
    ensures
        b == symbol(c),
{
    c == '+' || c == '-' || c == '*' || c == '/' || c == '%' || c == '<' || c == '>' || c == '='
        || c == '&' || c == '|' || c == '^' || c == '~'
}

} // verus!
