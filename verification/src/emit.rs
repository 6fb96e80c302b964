//! Building token streams: the tokens that the generator makes up, and
//! functions that append them to a stream.
//!
//! A made-up token stands where the dictionary as a whole stands.
use vstd::prelude::*;
use vstd::string::StringExecFns;
use crate::host::{quote_string, string_literal_text};
use crate::token::{
    clone_tokens, lemma_tokens_view_push, tokens_view, Delimiter, Spacing, Span, Token, TokenKind,
    TokenKindView, TokenView,
};

verus! {

/// A made-up word.
pub open spec fn word(text: Seq<char>) -> TokenView {
    TokenView { kind: TokenKindView::Term(text), span: Span::spec_call_site() }
}

/// A made-up operator glyph.
pub open spec fn glyph(op: char, spacing: Spacing) -> TokenView {
    TokenView { kind: TokenKindView::Op(op, spacing), span: Span::spec_call_site() }
}

/// A made-up operator glyph that stands alone.
pub open spec fn punct(op: char) -> TokenView {
    glyph(op, Spacing::Alone)
}

/// A made-up group.
pub open spec fn group(delimiter: Delimiter, tokens: Seq<TokenView>) -> TokenView {
    TokenView { kind: TokenKindView::Group(delimiter, tokens), span: Span::spec_call_site() }
}

/// A made-up comma.
pub open spec fn comma() -> TokenView {
    punct(',')
}

/// The made-up string literal that denotes `value`.
pub open spec fn string_literal(value: Seq<char>) -> TokenView {
    TokenView {
        kind: TokenKindView::Literal { text: string_literal_text(value), string: Some(value) },
        span: Span::spec_call_site(),
    }
}

/// Host code that is kept as text.
pub open spec fn verbatim(code: Seq<char>) -> TokenView {
    TokenView { kind: TokenKindView::Verbatim(code), span: Span::spec_call_site() }
}

/// The two glyphs `::`.
pub open spec fn path_sep() -> Seq<TokenView> {
    seq![glyph(':', Spacing::Joint), punct(':')]
}

/// The two glyphs `->`.
pub open spec fn thin_arrow() -> Seq<TokenView> {
    seq![glyph('-', Spacing::Joint), punct('>')]
}

/// The two glyphs `=>`.
pub open spec fn fat_arrow() -> Seq<TokenView> {
    seq![glyph('=', Spacing::Joint), punct('>')]
}

/// A stream without tokens.
pub fn new_stream() -> (out: Vec<Token>)
    ensures
        tokens_view(out@) == Seq::<TokenView>::empty(),
{
    let out: Vec<Token> = Vec::new();
    proof {
        assert(tokens_view(out@) =~= Seq::<TokenView>::empty());
    }
    out
}

/// Appends one token.
pub fn push_token(out: &mut Vec<Token>, token: Token)
    ensures
        tokens_view(final(out)@) == tokens_view(old(out)@).push(token@),
{
    let ghost before = out@;
    out.push(token);
    proof {
        lemma_tokens_view_push(before, token);
    }
}

/// Appends a word.
pub fn push_word(out: &mut Vec<Token>, text: &str)
    ensures
        tokens_view(final(out)@) == tokens_view(old(out)@).push(word(text@)),
{
    push_token(out, Token::term(text, Span::call_site()));
}

/// Appends an operator glyph that stands alone.
pub fn push_punct(out: &mut Vec<Token>, op: char)
    ensures
        tokens_view(final(out)@) == tokens_view(old(out)@).push(punct(op)),
{
    push_token(out, Token::op(op, Spacing::Alone, Span::call_site()));
}

/// Appends an operator of two glyphs.
pub fn push_pair(out: &mut Vec<Token>, first: char, second: char)
    ensures
        tokens_view(final(out)@) == tokens_view(old(out)@) + seq![
            glyph(first, Spacing::Joint),
            punct(second),
        ],
{
    let ghost before = tokens_view(out@);
    push_token(out, Token::op(first, Spacing::Joint, Span::call_site()));
    push_token(out, Token::op(second, Spacing::Alone, Span::call_site()));
    proof {
        assert(tokens_view(out@) =~= before + seq![glyph(first, Spacing::Joint), punct(second)]);
    }
}

/// Appends a group that holds `tokens`.
pub fn push_group(out: &mut Vec<Token>, delimiter: Delimiter, tokens: Vec<Token>)
    ensures
        tokens_view(final(out)@) == tokens_view(old(out)@).push(
            group(delimiter, tokens_view(tokens@)),
        ),
{
    push_token(out, Token::group(delimiter, tokens, Span::call_site()));
}

/// Appends the string literal that denotes `value`.
pub fn push_string(out: &mut Vec<Token>, value: &str)
    ensures
        tokens_view(final(out)@) == tokens_view(old(out)@).push(string_literal(value@)),
{
    let token = Token {
        kind: TokenKind::Literal { text: quote_string(value), string: Some(String::from_str(value)) },
        span: Span::call_site(),
    };
    push_token(out, token);
}

/// Appends host code that is kept as text.
pub fn push_verbatim(out: &mut Vec<Token>, code: &str)
    ensures
        tokens_view(final(out)@) == tokens_view(old(out)@).push(verbatim(code@)),
{
    push_token(out, Token::verbatim(code, Span::call_site()));
}

/// Appends the tokens of `tokens`, which is emptied.
pub fn push_all(out: &mut Vec<Token>, tokens: Vec<Token>)
    ensures
        tokens_view(final(out)@) == tokens_view(old(out)@) + tokens_view(tokens@),
{
    let ghost before = out@;
    let mut tokens = tokens;
    let ghost added = tokens@;
    out.append(&mut tokens);
    proof {
        assert(out@ == before + added);
        assert(tokens_view(before + added) =~= tokens_view(before) + tokens_view(added));
    }
}

/// Appends copies of the tokens of `tokens`.
pub fn push_copies(out: &mut Vec<Token>, tokens: &Vec<Token>)
    ensures
        tokens_view(final(out)@) == tokens_view(old(out)@) + tokens_view(tokens@),
{
    push_all(out, clone_tokens(tokens));
}

/// The text `a` followed by the text `b`.
pub fn concat(a: &str, b: &str) -> (text: String)
    ensures
        text@ == a@ + b@,
{
    let mut text = String::from_str(a);
    text.append(b);
    text
}

} // verus!
