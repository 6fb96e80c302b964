//! The token cursor: a position in a token stream, with accessors that take
//! the next token if it has the shape asked for.
//!
//! The model of a cursor is the sequence of tokens that it has not consumed
//! yet. Each accessor has a specification function on such sequences, which
//! gives the value read and the tokens left, or the error.
use vstd::prelude::*;
use vstd::string::StringExecFns;
use crate::ast::{Ident, IdentView};
use crate::error::{Expected, ExpectedView, ParseError, ParseErrorView};
use crate::model::{clone_opt_string, opt_str_view, str_eq};
use crate::token::{
    eq_delim, lemma_group_view, tokens_view, Delimiter, Spacing, Span, Token, TokenKind,
    TokenKindView, TokenView,
};

verus! {

/// What a parser makes of a sequence of tokens: a value and the tokens left,
/// or an error.
pub type Parsed<T> = Result<(T, Seq<TokenView>), ParseErrorView>;

/// The error for a token of the wrong shape.
pub open spec fn unexpected(expected: ExpectedView, found: TokenView) -> ParseErrorView {
    ParseErrorView::UnexpectedToken { expected, found }
}

/// The next token, whatever it is.
pub open spec fn next_spec(s: Seq<TokenView>) -> Parsed<TokenView> {
    if s.len() == 0 {
        Err(ParseErrorView::EndOfInput)
    } else {
        Ok((s[0], s.drop_first()))
    }
}

/// The next token as a name.
pub open spec fn term_spec(s: Seq<TokenView>) -> Parsed<IdentView> {
    if s.len() == 0 {
        Err(ParseErrorView::EndOfInput)
    } else {
        match s[0].kind {
            TokenKindView::Term(name) => Ok(
                (IdentView { name, span: Some(s[0].span) }, s.drop_first()),
            ),
            _ => Err(unexpected(ExpectedView::Identifier, s[0])),
        }
    }
}

/// The next token as the given word.
pub open spec fn keyword_spec(s: Seq<TokenView>, word: Seq<char>) -> Parsed<()> {
    if s.len() == 0 {
        Err(ParseErrorView::EndOfInput)
    } else if s[0].kind == TokenKindView::Term(word) {
        Ok(((), s.drop_first()))
    } else {
        Err(unexpected(ExpectedView::Keyword(word), s[0]))
    }
}

/// A group, seen from outside: its brackets, its stream and its place.
pub struct GroupView {
    pub delimiter: Delimiter,
    pub tokens: Seq<TokenView>,
    pub span: Span,
}

/// The next token as a group.
pub open spec fn group_spec(s: Seq<TokenView>) -> Parsed<GroupView> {
    if s.len() == 0 {
        Err(ParseErrorView::EndOfInput)
    } else {
        match s[0].kind {
            TokenKindView::Group(delimiter, tokens) => Ok(
                (GroupView { delimiter, tokens, span: s[0].span }, s.drop_first()),
            ),
            _ => Err(unexpected(ExpectedView::Group, s[0])),
        }
    }
}

/// The next token as a group with the given brackets.
pub open spec fn group_delimited_by_spec(s: Seq<TokenView>, delimiter: Delimiter) -> Parsed<
    GroupView,
> {
    match group_spec(s) {
        Err(e) => Err(e),
        Ok((group, rest)) => if group.delimiter == delimiter {
            Ok((group, rest))
        } else {
            Err(unexpected(ExpectedView::GroupDelimitedBy(delimiter), s[0]))
        },
    }
}

/// A literal, seen from outside: its text, the string it denotes if it is a
/// string literal, and its place.
pub struct LiteralView {
    pub text: Seq<char>,
    pub string: Option<Seq<char>>,
    pub span: Span,
}

/// The next token as a literal.
pub open spec fn literal_spec(s: Seq<TokenView>) -> Parsed<LiteralView> {
    if s.len() == 0 {
        Err(ParseErrorView::EndOfInput)
    } else {
        match s[0].kind {
            TokenKindView::Literal { text, string } => Ok(
                (LiteralView { text, string, span: s[0].span }, s.drop_first()),
            ),
            _ => Err(unexpected(ExpectedView::Literal, s[0])),
        }
    }
}

/// The next token as the operator glyph `op`: its spacing and its place.
pub open spec fn op_if_spec(s: Seq<TokenView>, op: char) -> Parsed<(Spacing, Span)> {
    if s.len() == 0 {
        Err(ParseErrorView::EndOfInput)
    } else {
        match s[0].kind {
            TokenKindView::Op(glyph, spacing) if glyph == op => Ok(
                ((spacing, s[0].span), s.drop_first()),
            ),
            _ => Err(unexpected(ExpectedView::Operator(op), s[0])),
        }
    }
}

/// The next token as an operator glyph, whichever: the glyph and its
/// spacing.
pub open spec fn op_spec(s: Seq<TokenView>) -> Parsed<(char, Spacing)> {
    if s.len() == 0 {
        Err(ParseErrorView::EndOfInput)
    } else {
        match s[0].kind {
            TokenKindView::Op(glyph, spacing) => Ok(((glyph, spacing), s.drop_first())),
            _ => Err(unexpected(ExpectedView::Operator(' '), s[0])),
        }
    }
}

/// A group as the accessors hand it out: its stream, borrowed from the
/// token, and its place.
#[derive(Debug)]
pub struct GroupRef<'a> {
    pub delimiter: Delimiter,
    pub tokens: &'a Vec<Token>,
    pub span: Span,
}

impl<'a> View for GroupRef<'a> {
    type V = GroupView;

    open spec fn view(&self) -> GroupView {
        GroupView {
            delimiter: self.delimiter,
            tokens: tokens_view(self.tokens@),
            span: self.span,
        }
    }
}

/// A literal as the accessors hand it out.
#[derive(Debug, PartialEq, Eq)]
pub struct Lit {
    pub text: String,
    pub string: Option<String>,
    pub span: Span,
}

impl View for Lit {
    type V = LiteralView;

    open spec fn view(&self) -> LiteralView {
        LiteralView {
            text: self.text@,
            string: opt_str_view(self.string),
            span: self.span,
        }
    }
}

/// A position in a token stream.
#[derive(Debug)]
pub struct Cursor<'a> {
    tokens: &'a Vec<Token>,
    pos: usize,
}

impl<'a> Cursor<'a> {
    #[verifier::type_invariant]
    spec fn wf(self) -> bool {
        self.pos <= self.tokens@.len()
    }

    /// The tokens that were not consumed yet.
    pub closed spec fn remaining(self) -> Seq<TokenView> {
        tokens_view(self.tokens@).subrange(self.pos as int, self.tokens@.len() as int)
    }

    /// A cursor at the start of `tokens`.
    pub fn new(tokens: &'a Vec<Token>) -> (cursor: Self)
        ensures
            cursor.remaining() == tokens_view(tokens@),
    {
        proof {
            assert(tokens_view(tokens@).subrange(0, tokens@.len() as int) =~= tokens_view(tokens@));
        }
        Cursor { tokens, pos: 0 }
    }

    /// Whether every token was consumed.
    pub fn is_exhausted(&self) -> (yes: bool)
        ensures
            yes == (self.remaining().len() == 0),
    {
        proof {
            use_type_invariant(self);
        }
        self.pos >= self.tokens.len()
    }

    /// Whether a token is left.
    pub fn is_not_exhausted(&self) -> (yes: bool)
        ensures
            yes == (self.remaining().len() > 0),
    {
        !self.is_exhausted()
    }

    /// The next token, which stays where it is.
    pub fn peek_curr(&self) -> (r: Result<&'a Token, ParseError>)
        ensures
            match r {
                Ok(token) => self.remaining().len() > 0 && token@ == self.remaining()[0],
                Err(e) => self.remaining().len() == 0 && e@ == ParseErrorView::EndOfInput,
            },
    {
        proof {
            use_type_invariant(self);
        }
        if self.pos < self.tokens.len() {
            Ok(&self.tokens[self.pos])
        } else {
            Err(ParseError::EndOfInput)
        }
    }

    /// Steps over the next token, if there is one.
    pub fn bump(&mut self)
        ensures
            final(self).remaining() == if old(self).remaining().len() > 0 {
                old(self).remaining().drop_first()
            } else {
                old(self).remaining()
            },
    {
        proof {
            use_type_invariant(&*self);
        }
        if self.pos < self.tokens.len() {
            let ghost before = self.remaining();
            self.pos = self.pos + 1;
            proof {
                assert(self.remaining() =~= before.drop_first());
            }
        }
    }

    /// Takes the next token.
    pub fn eat_curr(&mut self) -> (r: Result<&'a Token, ParseError>)
        ensures
            match r {
                Ok(token) => next_spec(old(self).remaining()) == Ok::<
                    (TokenView, Seq<TokenView>),
                    ParseErrorView,
                >((token@, final(self).remaining())),
                Err(e) => next_spec(old(self).remaining()) == Err::<
                    (TokenView, Seq<TokenView>),
                    ParseErrorView,
                >(e@) && final(self).remaining() == old(self).remaining(),
            },
    {
        match self.peek_curr() {
            Ok(token) => {
                self.bump();
                Ok(token)
            },
            Err(e) => Err(e),
        }
    }

    /// Takes the next token if it is a word.
    pub fn eat_term(&mut self) -> (r: Result<Ident, ParseError>)
        ensures
            match r {
                Ok(ident) => term_spec(old(self).remaining()) == Ok::<
                    (IdentView, Seq<TokenView>),
                    ParseErrorView,
                >((ident@, final(self).remaining())),
                Err(e) => term_spec(old(self).remaining()) == Err::<
                    (IdentView, Seq<TokenView>),
                    ParseErrorView,
                >(e@) && final(self).remaining() == old(self).remaining(),
            },
    {
        let token = match self.peek_curr() {
            Ok(token) => token,
            Err(e) => {
                return Err(e);
            },
        };
        match &token.kind {
            TokenKind::Term(name) => {
                self.bump();
                Ok(Ident::new(name.clone(), token.span))
            },
            _ => Err(
                ParseError::UnexpectedToken { expected: Expected::Identifier, found: token.duplicate() },
            ),
        }
    }

    /// Takes the next token if it is the word `expected`.
    pub fn eat_keyword(&mut self, expected: &str) -> (r: Result<(), ParseError>)
        ensures
            match r {
                Ok(()) => keyword_spec(old(self).remaining(), expected@) == Ok::<
                    ((), Seq<TokenView>),
                    ParseErrorView,
                >(((), final(self).remaining())),
                Err(e) => keyword_spec(old(self).remaining(), expected@) == Err::<
                    ((), Seq<TokenView>),
                    ParseErrorView,
                >(e@) && final(self).remaining() == old(self).remaining(),
            },
    {
        let token = match self.peek_curr() {
            Ok(token) => token,
            Err(e) => {
                return Err(e);
            },
        };
        let is_it = match &token.kind {
            TokenKind::Term(name) => str_eq(name.as_str(), expected),
            _ => false,
        };
        if is_it {
            self.bump();
            Ok(())
        } else {
            Err(
                ParseError::UnexpectedToken {
                    expected: Expected::Keyword(String::from_str(expected)),
                    found: token.duplicate(),
                },
            )
        }
    }

    /// Takes the next token if it is a group.
    pub fn eat_group(&mut self) -> (r: Result<GroupRef<'a>, ParseError>)
        ensures
            match r {
                Ok(group) => group_spec(old(self).remaining()) == Ok::<
                    (GroupView, Seq<TokenView>),
                    ParseErrorView,
                >((group@, final(self).remaining())),
                Err(e) => group_spec(old(self).remaining()) == Err::<
                    (GroupView, Seq<TokenView>),
                    ParseErrorView,
                >(e@) && final(self).remaining() == old(self).remaining(),
            },
    {
        let token = match self.peek_curr() {
            Ok(token) => token,
            Err(e) => {
                return Err(e);
            },
        };
        match &token.kind {
            TokenKind::Group(delimiter, tokens) => {
                proof {
                    lemma_group_view(*token);
                }
                self.bump();
                Ok(GroupRef { delimiter: *delimiter, tokens, span: token.span })
            },
            _ => Err(
                ParseError::UnexpectedToken { expected: Expected::Group, found: token.duplicate() },
            ),
        }
    }

    /// Takes the next token if it is a group with the brackets `delimiter`.
    pub fn eat_group_delimited_by(&mut self, delimiter: Delimiter) -> (r: Result<
        GroupRef<'a>,
        ParseError,
    >)
        ensures
            match r {
                Ok(group) => group_delimited_by_spec(old(self).remaining(), delimiter) == Ok::<
                    (GroupView, Seq<TokenView>),
                    ParseErrorView,
                >((group@, final(self).remaining())),
                Err(e) => group_delimited_by_spec(old(self).remaining(), delimiter) == Err::<
                    (GroupView, Seq<TokenView>),
                    ParseErrorView,
                >(e@) && final(self).remaining() == old(self).remaining(),
            },
    {
        let token = match self.peek_curr() {
            Ok(token) => token,
            Err(e) => {
                return Err(e);
            },
        };
        match &token.kind {
            TokenKind::Group(actual, tokens) => {
                proof {
                    lemma_group_view(*token);
                }
                if eq_delim(delimiter, *actual) {
                    self.bump();
                    Ok(GroupRef { delimiter: *actual, tokens, span: token.span })
                } else {
                    Err(
                        ParseError::UnexpectedToken {
                            expected: Expected::GroupDelimitedBy(delimiter),
                            found: token.duplicate(),
                        },
                    )
                }
            },
            _ => Err(
                ParseError::UnexpectedToken { expected: Expected::Group, found: token.duplicate() },
            ),
        }
    }

    /// Takes the next token if it is a literal.
    pub fn eat_literal(&mut self) -> (r: Result<Lit, ParseError>)
        ensures
            match r {
                Ok(lit) => literal_spec(old(self).remaining()) == Ok::<
                    (LiteralView, Seq<TokenView>),
                    ParseErrorView,
                >((lit@, final(self).remaining())),
                Err(e) => literal_spec(old(self).remaining()) == Err::<
                    (LiteralView, Seq<TokenView>),
                    ParseErrorView,
                >(e@) && final(self).remaining() == old(self).remaining(),
            },
    {
        let token = match self.peek_curr() {
            Ok(token) => token,
            Err(e) => {
                return Err(e);
            },
        };
        match &token.kind {
            TokenKind::Literal { text, string } => {
                self.bump();
                Ok(Lit { text: text.clone(), string: clone_opt_string(string), span: token.span })
            },
            _ => Err(
                ParseError::UnexpectedToken { expected: Expected::Literal, found: token.duplicate() },
            ),
        }
    }

    /// Takes the next token if it is an operator glyph.
    pub fn eat_op(&mut self) -> (r: Result<(char, Spacing), ParseError>)
        ensures
            match r {
                Ok(op) => op_spec(old(self).remaining()) == Ok::<
                    ((char, Spacing), Seq<TokenView>),
                    ParseErrorView,
                >((op, final(self).remaining())),
                Err(e) => op_spec(old(self).remaining()) == Err::<
                    ((char, Spacing), Seq<TokenView>),
                    ParseErrorView,
                >(e@) && final(self).remaining() == old(self).remaining(),
            },
    {
        let token = match self.peek_curr() {
            Ok(token) => token,
            Err(e) => {
                return Err(e);
            },
        };
        match &token.kind {
            TokenKind::Op(glyph, spacing) => {
                self.bump();
                Ok((*glyph, *spacing))
            },
            _ => Err(
                ParseError::UnexpectedToken {
                    expected: Expected::Operator(' '),
                    found: token.duplicate(),
                },
            ),
        }
    }

    /// Takes the next token if it is the operator glyph `op`. The spacing
    /// tells a glyph that stands alone from the first glyph of an operator of
    /// two glyphs, such as `->` or `=>`.
    pub fn eat_op_if(&mut self, op: char) -> (r: Result<(Spacing, Span), ParseError>)
        ensures
            match r {
                Ok(found) => op_if_spec(old(self).remaining(), op) == Ok::<
                    ((Spacing, Span), Seq<TokenView>),
                    ParseErrorView,
                >((found, final(self).remaining())),
                Err(e) => op_if_spec(old(self).remaining(), op) == Err::<
                    ((Spacing, Span), Seq<TokenView>),
                    ParseErrorView,
                >(e@) && final(self).remaining() == old(self).remaining(),
            },
    {
        let token = match self.peek_curr() {
            Ok(token) => token,
            Err(e) => {
                return Err(e);
            },
        };
        let found = match &token.kind {
            TokenKind::Op(glyph, spacing) => if *glyph == op {
                Some(*spacing)
            } else {
                None
            },
            _ => None,
        };
        match found {
            Some(spacing) => {
                self.bump();
                Ok((spacing, token.span))
            },
            None => Err(
                ParseError::UnexpectedToken {
                    expected: Expected::Operator(op),
                    found: token.duplicate(),
                },
            ),
        }
    }
}

} // verus!
