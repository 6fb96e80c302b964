//! What can go wrong in each stage. Every stage stops at its first error.
use vstd::prelude::*;
use crate::token::{Delimiter, Span, Token, TokenView};

verus! {

/// What the parser was looking for when it met something else.
#[derive(Debug, PartialEq, Eq)]
pub enum Expected {
    Identifier,
    Keyword(String),
    Group,
    GroupDelimitedBy(Delimiter),
    Literal,
    StringLiteral,
    Operator(char),
    /// The two glyphs `->`.
    Arrow,
    /// The two glyphs `=>`.
    FatArrow,
    /// The block of a unit, after a return type.
    Body,
    /// `->` or the block of a unit, after a parameter list.
    ArrowOrBody,
    /// `(`, `->` or the block of a unit, after the unit's name.
    ParamsArrowOrBody,
    /// Nothing more inside a group.
    EndOfGroup,
}

/// The model of an [`Expected`].
pub enum ExpectedView {
    Identifier,
    Keyword(Seq<char>),
    Group,
    GroupDelimitedBy(Delimiter),
    Literal,
    StringLiteral,
    Operator(char),
    Arrow,
    FatArrow,
    Body,
    ArrowOrBody,
    ParamsArrowOrBody,
    EndOfGroup,
}

impl View for Expected {
    type V = ExpectedView;

    open spec fn view(&self) -> ExpectedView {
        match *self {
            Expected::Identifier => ExpectedView::Identifier,
            Expected::Keyword(s) => ExpectedView::Keyword(s@),
            Expected::Group => ExpectedView::Group,
            Expected::GroupDelimitedBy(d) => ExpectedView::GroupDelimitedBy(d),
            Expected::Literal => ExpectedView::Literal,
            Expected::StringLiteral => ExpectedView::StringLiteral,
            Expected::Operator(c) => ExpectedView::Operator(c),
            Expected::Arrow => ExpectedView::Arrow,
            Expected::FatArrow => ExpectedView::FatArrow,
            Expected::Body => ExpectedView::Body,
            Expected::ArrowOrBody => ExpectedView::ArrowOrBody,
            Expected::ParamsArrowOrBody => ExpectedView::ParamsArrowOrBody,
            Expected::EndOfGroup => ExpectedView::EndOfGroup,
        }
    }
}

/// A dictionary description that is not well formed.
#[derive(Debug, PartialEq, Eq)]
pub enum ParseError {
    /// A token of another shape than the grammar asks for. The token's span
    /// is the position of the error.
    UnexpectedToken { expected: Expected, found: Token },
    /// The stream ended where the grammar asks for a token.
    EndOfInput,
    /// An item that starts with a word other than `unit` or `mod`.
    UnknownItemKeyword { keyword: String, span: Option<Span> },
    /// No source was found for a declared module.
    ModuleNotFound { name: String, span: Option<Span> },
    /// Two sources were found for a declared module.
    AmbiguousModule { name: String, span: Option<Span> },
    /// The source of a declared module was found but could not be read or
    /// split into tokens; `reason` says why.
    UnreadableModule { name: String, span: Option<Span>, reason: String },
}

/// The model of a [`ParseError`].
pub enum ParseErrorView {
    UnexpectedToken { expected: ExpectedView, found: TokenView },
    EndOfInput,
    UnknownItemKeyword { keyword: Seq<char>, span: Option<Span> },
    ModuleNotFound { name: Seq<char>, span: Option<Span> },
    AmbiguousModule { name: Seq<char>, span: Option<Span> },
    UnreadableModule { name: Seq<char>, span: Option<Span>, reason: Seq<char> },
}

impl View for ParseError {
    type V = ParseErrorView;

    open spec fn view(&self) -> ParseErrorView {
        match *self {
            ParseError::UnexpectedToken { expected, found } => ParseErrorView::UnexpectedToken {
                expected: expected@,
                found: found@,
            },
            ParseError::EndOfInput => ParseErrorView::EndOfInput,
            ParseError::UnknownItemKeyword { keyword, span } => ParseErrorView::UnknownItemKeyword {
                keyword: keyword@,
                span,
            },
            ParseError::ModuleNotFound { name, span } => ParseErrorView::ModuleNotFound {
                name: name@,
                span,
            },
            ParseError::AmbiguousModule { name, span } => ParseErrorView::AmbiguousModule {
                name: name@,
                span,
            },
            ParseError::UnreadableModule { name, span, reason } => {
                ParseErrorView::UnreadableModule { name: name@, span, reason: reason@ }
            },
        }
    }
}

/// A dictionary that parses but breaks a rule.
#[derive(Debug, PartialEq, Eq)]
pub enum CheckError {
    /// An arm that can never match: what it names was matched before.
    /// `pattern` is the pattern's text.
    UnreachablePattern { pattern: String, span: Option<Span> },
    /// A pattern with a region whose language is not declared.
    UnknownLanguage { name: String, span: Option<Span> },
    /// A unit with a return type of its own whose arms leave a locale
    /// unmatched.
    MissingFallbackForTypedUnit { unit: String, span: Option<Span> },
    /// A unit with a return type of its own and an arm whose body is a
    /// string. `arm` is the text of that arm's pattern, `body_span` the
    /// place of the string.
    CustomReturnRequiresRawBody { unit: String, arm: String, body_span: Span },
}

/// The model of a [`CheckError`].
pub enum CheckErrorView {
    UnreachablePattern { pattern: Seq<char>, span: Option<Span> },
    UnknownLanguage { name: Seq<char>, span: Option<Span> },
    MissingFallbackForTypedUnit { unit: Seq<char>, span: Option<Span> },
    CustomReturnRequiresRawBody { unit: Seq<char>, arm: Seq<char>, body_span: Span },
}

impl View for CheckError {
    type V = CheckErrorView;

    open spec fn view(&self) -> CheckErrorView {
        match *self {
            CheckError::UnreachablePattern { pattern, span } => CheckErrorView::UnreachablePattern {
                pattern: pattern@,
                span,
            },
            CheckError::UnknownLanguage { name, span } => CheckErrorView::UnknownLanguage {
                name: name@,
                span,
            },
            CheckError::MissingFallbackForTypedUnit { unit, span } => {
                CheckErrorView::MissingFallbackForTypedUnit { unit: unit@, span }
            },
            CheckError::CustomReturnRequiresRawBody { unit, arm, body_span } => {
                CheckErrorView::CustomReturnRequiresRawBody { unit: unit@, arm: arm@, body_span }
            },
        }
    }
}

/// A placeholder of a string body that is not host code.
#[derive(Debug, PartialEq, Eq)]
pub enum TemplateError {
    /// The placeholder at `index` (counted from 0) holds `expr`, which the
    /// host's lexer rejects.
    InvalidExpression { index: usize, expr: String },
}

/// The model of a [`TemplateError`].
pub enum TemplateErrorView {
    InvalidExpression { index: usize, expr: Seq<char> },
}

impl View for TemplateError {
    type V = TemplateErrorView;

    open spec fn view(&self) -> TemplateErrorView {
        match *self {
            TemplateError::InvalidExpression { index, expr } => TemplateErrorView::InvalidExpression {
                index,
                expr: expr@,
            },
        }
    }
}

/// Why no code was generated.
#[derive(Debug, PartialEq, Eq)]
pub enum GenError {
    /// The dictionary breaks a rule of the checker.
    Check(CheckError),
    /// A string body could not be lowered.
    Template(TemplateError),
}

/// The model of a [`GenError`].
pub enum GenErrorView {
    Check(CheckErrorView),
    Template(TemplateErrorView),
}

impl View for GenError {
    type V = GenErrorView;

    open spec fn view(&self) -> GenErrorView {
        match *self {
            GenError::Check(e) => GenErrorView::Check(e@),
            GenError::Template(e) => GenErrorView::Template(e@),
        }
    }
}

} // verus!
