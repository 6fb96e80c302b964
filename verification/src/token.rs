//! Tokens: the alphabet of a dictionary description and of the emitted code.
//!
//! A token stream is a `Vec<Token>`. Its mathematical model is a
//! `Seq<TokenView>`, in which every string is a `Seq<char>` and every nested
//! stream is again a sequence.
use vstd::prelude::*;
use vstd::string::StringExecFns;
use crate::model::{clone_opt_string, opt_str_view, views};

verus! {

/// How a group of tokens is bracketed.
#[derive(Clone, Copy, Debug, PartialEq, Eq, Structural)]
pub enum Delimiter {
    Parenthesis,
    Brace,
    Bracket,
    /// A group without visible brackets.
    Invisible,
}

/// Whether an operator glyph is directly followed by another one.
#[derive(Clone, Copy, Debug, PartialEq, Eq, Structural)]
pub enum Spacing {
    Alone,
    Joint,
}

/// A region of the source text, as a half-open range of offsets.
#[derive(Clone, Copy, Debug, PartialEq, Eq, Structural)]
pub struct Span {
    pub lo: usize,
    pub hi: usize,
}

impl Span {
    /// The position given to tokens that the compiler makes up itself: the
    /// place where the dictionary as a whole stands.
    pub fn call_site() -> (span: Span)
        ensures
            span == Span::spec_call_site(),
    {
        Span { lo: 0, hi: 0 }
    }

    pub open spec fn spec_call_site() -> Span {
        Span { lo: 0, hi: 0 }
    }
}

/// A value together with the place it was read from.
#[derive(Debug, PartialEq, Eq)]
pub struct Spanned<T> {
    pub obj: T,
    pub span: Span,
}

impl<T> Spanned<T> {
    pub fn new(obj: T, span: Span) -> (spanned: Self)
        ensures
            spanned.obj == obj,
            spanned.span == span,
    {
        Spanned { obj, span }
    }
}

/// What a token is.
#[derive(Debug, PartialEq, Eq)]
pub enum TokenKind {
    /// A bracketed stream of tokens.
    Group(Delimiter, Vec<Token>),
    /// A word: an identifier or a keyword.
    Term(String),
    /// One operator glyph.
    Op(char, Spacing),
    /// A literal: its source text and, for a string literal, the string it
    /// denotes.
    Literal { text: String, string: Option<String> },
    /// Host code kept as text. The generator emits it for code that it holds
    /// only as text; a dictionary description never contains it.
    Verbatim(String),
}

/// A token and its place in the source.
#[derive(Debug, PartialEq, Eq)]
pub struct Token {
    pub kind: TokenKind,
    pub span: Span,
}

/// The model of a [`TokenKind`].
pub enum TokenKindView {
    Group(Delimiter, Seq<TokenView>),
    Term(Seq<char>),
    Op(char, Spacing),
    Literal { text: Seq<char>, string: Option<Seq<char>> },
    Verbatim(Seq<char>),
}

/// The model of a [`Token`].
pub struct TokenView {
    pub kind: TokenKindView,
    pub span: Span,
}

/// The model of one token; nested streams are modelled token by token.
pub open spec fn token_view(t: Token) -> TokenView
    decreases t,
{
    TokenView {
        kind: match t.kind {
            TokenKind::Group(d, ts) => TokenKindView::Group(
                d,
                Seq::new(
                    ts@.len(),
                    |i: int|
                        if 0 <= i < ts@.len() {
                            token_view(ts@[i])
                        } else {
                            arbitrary()
                        },
                ),
            ),
            TokenKind::Term(s) => TokenKindView::Term(s@),
            TokenKind::Op(c, sp) => TokenKindView::Op(c, sp),
            TokenKind::Literal { text, string } => TokenKindView::Literal {
                text: text@,
                string: opt_str_view(string),
            },
            TokenKind::Verbatim(s) => TokenKindView::Verbatim(s@),
        },
        span: t.span,
    }
}

impl View for Token {
    type V = TokenView;

    open spec fn view(&self) -> TokenView {
        token_view(*self)
    }
}

/// The model of a token stream.
pub open spec fn tokens_view(ts: Seq<Token>) -> Seq<TokenView> {
    views(ts)
}

/// A group's model holds the model of its stream.
pub proof fn lemma_group_view(t: Token)
    requires
        t.kind is Group,
    ensures
        t@.kind == TokenKindView::Group(t.kind->Group_0, tokens_view(t.kind->Group_1@)),
{
    let ts = t.kind->Group_1;
    assert(t@.kind is Group);
    assert(t@.kind->Group_1 =~= tokens_view(ts@));
}

/// The model of a stream grows with the stream.
pub proof fn lemma_tokens_view_push(ts: Seq<Token>, t: Token)
    ensures
        tokens_view(ts.push(t)) == tokens_view(ts).push(t@),
{
    assert(tokens_view(ts.push(t)) =~= tokens_view(ts).push(t@));
}

/// Whether two delimiters are the same.
pub fn eq_delim(a: Delimiter, b: Delimiter) -> (same: bool)
    ensures
        same == (a == b),
{
    match a {
        Delimiter::Parenthesis => matches!(b, Delimiter::Parenthesis),
        Delimiter::Brace => matches!(b, Delimiter::Brace),
        Delimiter::Bracket => matches!(b, Delimiter::Bracket),
        Delimiter::Invisible => matches!(b, Delimiter::Invisible),
    }
}

/// Whether two spacings are the same.
pub fn eq_spacing(a: Spacing, b: Spacing) -> (same: bool)
    ensures
        same == (a == b),
{
    match a {
        Spacing::Alone => matches!(b, Spacing::Alone),
        Spacing::Joint => matches!(b, Spacing::Joint),
    }
}

impl TokenKind {
    pub fn is_group(&self) -> (yes: bool)
        ensures
            yes == (self is Group),
    {
        match self {
            TokenKind::Group(..) => true,
            _ => false,
        }
    }

    pub fn is_term(&self) -> (yes: bool)
        ensures
            yes == (self is Term),
    {
        match self {
            TokenKind::Term(..) => true,
            _ => false,
        }
    }

    pub fn is_op(&self) -> (yes: bool)
        ensures
            yes == (self is Op),
    {
        match self {
            TokenKind::Op(..) => true,
            _ => false,
        }
    }

    pub fn is_literal(&self) -> (yes: bool)
        ensures
            yes == (self is Literal),
    {
        match self {
            TokenKind::Literal { .. } => true,
            _ => false,
        }
    }
}

impl Token {
    /// A copy of this token, nested streams included.
    pub fn duplicate(&self) -> (copy: Token)
        ensures
            copy@ == self@,
        decreases *self,
    {
        let kind = match &self.kind {
            TokenKind::Group(d, ts) => {
                let inner = clone_tokens(ts);
                proof {
                    lemma_group_view(*self);
                }
                let ghost pre = Token { kind: TokenKind::Group(*d, inner), span: self.span };
                proof {
                    lemma_group_view(pre);
                }
                TokenKind::Group(*d, inner)
            },
            TokenKind::Term(s) => TokenKind::Term(s.clone()),
            TokenKind::Op(c, sp) => TokenKind::Op(*c, *sp),
            TokenKind::Literal { text, string } => TokenKind::Literal {
                text: text.clone(),
                string: clone_opt_string(string),
            },
            TokenKind::Verbatim(s) => TokenKind::Verbatim(s.clone()),
        };
        Token { kind, span: self.span }
    }

    /// A word at the given place.
    pub fn term(name: &str, span: Span) -> (t: Token)
        ensures
            t@ == (TokenView { kind: TokenKindView::Term(name@), span }),
    {
        Token { kind: TokenKind::Term(String::from_str(name)), span }
    }

    /// An operator glyph at the given place.
    pub fn op(glyph: char, spacing: Spacing, span: Span) -> (t: Token)
        ensures
            t@ == (TokenView { kind: TokenKindView::Op(glyph, spacing), span }),
    {
        Token { kind: TokenKind::Op(glyph, spacing), span }
    }

    /// A bracketed stream at the given place.
    pub fn group(delimiter: Delimiter, tokens: Vec<Token>, span: Span) -> (t: Token)
        ensures
            t@ == (TokenView { kind: TokenKindView::Group(delimiter, tokens_view(tokens@)), span }),
    {
        let t = Token { kind: TokenKind::Group(delimiter, tokens), span };
        proof {
            lemma_group_view(t);
        }
        t
    }

    /// Host code, kept as text, at the given place.
    pub fn verbatim(code: &str, span: Span) -> (t: Token)
        ensures
            t@ == (TokenView { kind: TokenKindView::Verbatim(code@), span }),
    {
        Token { kind: TokenKind::Verbatim(String::from_str(code)), span }
    }
}

/// A copy of a token stream, nested streams included.
pub fn clone_tokens(ts: &Vec<Token>) -> (copy: Vec<Token>)
    ensures
        tokens_view(copy@) == tokens_view(ts@),
    decreases *ts,
{
    let mut copy: Vec<Token> = Vec::new();
    let mut i: usize = 0;
    while i < ts.len()
        invariant
            i <= ts.len(),
            copy.len() == i,
            forall|j: int| 0 <= j < i ==> copy@[j]@ == ts@[j]@,
        decreases ts.len() - i,
    {
        let t = ts[i].duplicate();
        copy.push(t);
        i += 1;
    }
    assert(tokens_view(copy@) =~= tokens_view(ts@));
    copy
}

} // verus!
