//! What the library asks of the host language: whether a text splits into
//! tokens, and how a string is written as a literal. Both answers come from
//! `proc_macro2` and are taken on trust.
use vstd::prelude::*;
use std::str::FromStr;

verus! {

/// Whether the host's lexer splits `src` into tokens: the verdict of
/// `proc_macro2`'s `TokenStream::from_str`.
pub uninterp spec fn lexes_as_host_code(src: Seq<char>) -> bool;

/// The character for a hexadecimal digit, in lower case.
pub open spec fn hex_digit(d: nat) -> char {
    if d == 0 {
        '0'
    } else if d == 1 {
        '1'
    } else if d == 2 {
        '2'
    } else if d == 3 {
        '3'
    } else if d == 4 {
        '4'
    } else if d == 5 {
        '5'
    } else if d == 6 {
        '6'
    } else if d == 7 {
        '7'
    } else if d == 8 {
        '8'
    } else if d == 9 {
        '9'
    } else if d == 10 {
        'a'
    } else if d == 11 {
        'b'
    } else if d == 12 {
        'c'
    } else if d == 13 {
        'd'
    } else if d == 14 {
        'e'
    } else {
        'f'
    }
}

/// The number in hexadecimal notation, without leading zeros.
pub open spec fn hex_digits(n: nat) -> Seq<char>
    decreases n,
{
    if n < 16 {
        seq![hex_digit(n)]
    } else {
        hex_digits(n / 16).push(hex_digit(n % 16))
    }
}

/// One character as it stands inside a literal, by the rules of std's
/// `char::escape_default`: tab, carriage return and line feed become `\t`,
/// `\r` and `\n`; a quote, a double quote and a backslash get a backslash
/// in front; the other characters from the space to `~` stand as they are;
/// every other character becomes `\u{..}` around its number in hexadecimal
/// notation.
pub open spec fn char_escape(c: char) -> Seq<char> {
    if c == '\t' {
        seq!['\\', 't']
    } else if c == '\r' {
        seq!['\\', 'r']
    } else if c == '\n' {
        seq!['\\', 'n']
    } else if c == '\'' || c == '"' || c == '\\' {
        seq!['\\', c]
    } else if ' ' as u32 <= c as u32 <= '~' as u32 {
        seq![c]
    } else {
        seq!['\\', 'u', '{'] + hex_digits(c as u32 as nat) + seq!['}']
    }
}

/// The source text of the string literal that denotes `value`, as
/// `proc_macro2`'s `Literal::string` makes it: a double quote, the characters
/// of `value`, each escaped, and a double quote.
pub open spec fn string_literal_text(value: Seq<char>) -> Seq<char> {
    seq!['"'] + value.map_values(|c: char| char_escape(c)).flatten() + seq!['"']
}

/// Asks `proc_macro2` to lex `src`, with `<TokenStream as FromStr>::from_str`,
/// and tells whether it succeeded. The lexer reads nothing but `src`, so the
/// verdict is a function of the text: the contract gives it its name and
/// claims nothing else.
#[verifier::external_body]
pub(crate) fn is_host_code(src: &str) -> (ok: bool)
    ensures
        ok == lexes_as_host_code(src@),
{
    proc_macro2::TokenStream::from_str(src).is_ok()
}

/// Asks `proc_macro2` for the literal of a string, with `Literal::string`,
/// and returns the text that the literal displays as. The contract claims
/// what the source of `Literal::string` shows: the text is a double quote,
/// then for each character of the string what `char::escape_default` yields
/// for it, then a double quote. What `char::escape_default` yields is
/// stated by the rules that std documents for it.
#[verifier::external_body]
pub(crate) fn quote_string(value: &str) -> (text: String)
    ensures
        text@ == string_literal_text(value@),
{
    proc_macro2::Literal::string(value).to_string()
}

/// `String::push` appends the character to the end of the string.
pub assume_specification[ String::push ](s: &mut String, c: char)
    ensures
        final(s)@ == old(s)@.push(c),
;

} // verus!
