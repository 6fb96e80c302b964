//! The errors as sentences, for a diagnostic.
//!
//! Where the parser met a token of the wrong shape, the sentence says what
//! it was looking for. The token that it found is part of the error; how
//! to show it is left to the front end, which knows how the host writes
//! tokens.
use vstd::prelude::*;
use vstd::string::StringExecFns;
use crate::error::{
    CheckError, CheckErrorView, Expected, ExpectedView, GenError, GenErrorView, ParseError,
    ParseErrorView, TemplateError, TemplateErrorView,
};
use crate::token::{Delimiter, Span};

verus! {

/// The opening bracket of a group.
pub open spec fn open_text(delimiter: Delimiter) -> Seq<char> {
    match delimiter {
        Delimiter::Parenthesis => "("@,
        Delimiter::Brace => "{"@,
        Delimiter::Bracket => "["@,
        Delimiter::Invisible => ""@,
    }
}

impl ExpectedView {
    /// What the parser was looking for, in words.
    pub open spec fn text(self) -> Seq<char> {
        match self {
            ExpectedView::Identifier => "an identifier"@,
            ExpectedView::Keyword(word) => "keyword '"@ + word + "'"@,
            ExpectedView::Group => "a block"@,
            ExpectedView::GroupDelimitedBy(delimiter) => "a block delimited by '"@ + open_text(
                delimiter,
            ) + "'"@,
            ExpectedView::Literal => "a literal"@,
            ExpectedView::StringLiteral => "a string literal"@,
            ExpectedView::Operator(op) => "'"@ + seq![op] + "'"@,
            ExpectedView::Arrow => "'->'"@,
            ExpectedView::FatArrow => "'=>'"@,
            ExpectedView::Body => "a block delimited by '{'"@,
            ExpectedView::ArrowOrBody => "'->' or a block delimited by '{'"@,
            ExpectedView::ParamsArrowOrBody => "'(', '->' or a block delimited by '{'"@,
            ExpectedView::EndOfGroup => "the end of the group"@,
        }
    }
}

/// The text `a`, the text `b` and the text `c`, one after the other.
fn concat3(a: &str, b: &str, c: &str) -> (text: String)
    ensures
        text@ == a@ + b@ + c@,
{
    let mut text = String::from_str(a);
    text.append(b);
    text.append(c);
    text
}

impl Expected {
    /// What the parser was looking for, in words.
    pub fn to_text(&self) -> (text: String)
        ensures
            text@ == self@.text(),
    {
        match self {
            Expected::Identifier => String::from_str("an identifier"),
            Expected::Keyword(word) => concat3("keyword '", word.as_str(), "'"),
            Expected::Group => String::from_str("a block"),
            Expected::GroupDelimitedBy(delimiter) => {
                let open = match delimiter {
                    Delimiter::Parenthesis => "(",
                    Delimiter::Brace => "{",
                    Delimiter::Bracket => "[",
                    Delimiter::Invisible => "",
                };
                concat3("a block delimited by '", open, "'")
            },
            Expected::Literal => String::from_str("a literal"),
            Expected::StringLiteral => String::from_str("a string literal"),
            Expected::Operator(op) => {
                let mut text = String::from_str("'");
                let ghost before = text@;
                text.push(*op);
                proof {
                    assert(text@ =~= before + seq![*op]);
                }
                text.append("'");
                text
            },
            Expected::Arrow => String::from_str("'->'"),
            Expected::FatArrow => String::from_str("'=>'"),
            Expected::Body => String::from_str("a block delimited by '{'"),
            Expected::ArrowOrBody => String::from_str("'->' or a block delimited by '{'"),
            Expected::ParamsArrowOrBody => String::from_str("'(', '->' or a block delimited by '{'"),
            Expected::EndOfGroup => String::from_str("the end of the group"),
        }
    }
}

impl ParseErrorView {
    /// The error as a sentence.
    pub open spec fn message(self) -> Seq<char> {
        match self {
            ParseErrorView::UnexpectedToken { expected, .. } => "expected "@ + expected.text(),
            ParseErrorView::EndOfInput => "unexpected end of input"@,
            ParseErrorView::UnknownItemKeyword { keyword, .. } => "expected item, found identifier '"@
                + keyword + "'"@,
            ParseErrorView::ModuleNotFound { name, .. } => "cannot find a source for module '"@
                + name + "'"@,
            ParseErrorView::AmbiguousModule { name, .. } => "ambiguity when loading module '"@
                + name + "': two sources exist"@,
            ParseErrorView::UnreadableModule { name, reason, .. } => "error reading module '"@
                + name + "': "@ + reason,
        }
    }

    /// The place that the error points at, if it has one.
    pub open spec fn span(self) -> Option<Span> {
        match self {
            ParseErrorView::UnexpectedToken { found, .. } => Some(found.span),
            ParseErrorView::EndOfInput => None,
            ParseErrorView::UnknownItemKeyword { span, .. } => span,
            ParseErrorView::ModuleNotFound { span, .. } => span,
            ParseErrorView::AmbiguousModule { span, .. } => span,
            ParseErrorView::UnreadableModule { span, .. } => span,
        }
    }
}

impl ParseError {
    /// The error as a sentence.
    pub fn message(&self) -> (text: String)
        ensures
            text@ == self@.message(),
    {
        match self {
            ParseError::UnexpectedToken { expected, .. } => {
                let mut text = String::from_str("expected ");
                text.append(expected.to_text().as_str());
                text
            },
            ParseError::EndOfInput => String::from_str("unexpected end of input"),
            ParseError::UnknownItemKeyword { keyword, .. } => concat3(
                "expected item, found identifier '",
                keyword.as_str(),
                "'",
            ),
            ParseError::ModuleNotFound { name, .. } => concat3(
                "cannot find a source for module '",
                name.as_str(),
                "'",
            ),
            ParseError::AmbiguousModule { name, .. } => concat3(
                "ambiguity when loading module '",
                name.as_str(),
                "': two sources exist",
            ),
            ParseError::UnreadableModule { name, reason, .. } => {
                let mut text = concat3("error reading module '", name.as_str(), "': ");
                text.append(reason.as_str());
                text
            },
        }
    }

    /// The place that the error points at, if it has one.
    pub fn span(&self) -> (span: Option<Span>)
        ensures
            span == self@.span(),
    {
        match self {
            ParseError::UnexpectedToken { found, .. } => Some(found.span),
            ParseError::EndOfInput => None,
            ParseError::UnknownItemKeyword { span, .. } => *span,
            ParseError::ModuleNotFound { span, .. } => *span,
            ParseError::AmbiguousModule { span, .. } => *span,
            ParseError::UnreadableModule { span, .. } => *span,
        }
    }
}

impl CheckErrorView {
    /// The error as a sentence.
    pub open spec fn message(self) -> Seq<char> {
        match self {
            CheckErrorView::UnreachablePattern { pattern, .. } => "unreachable pattern '"@ + pattern
                + "'"@,
            CheckErrorView::UnknownLanguage { name, .. } => "'"@ + name
                + "' is not a valid language"@,
            CheckErrorView::MissingFallbackForTypedUnit { unit, .. } => "translation unit '"@ + unit
                + "' has a custom return type, but its arms do not match every locale"@,
            CheckErrorView::CustomReturnRequiresRawBody { unit, arm, .. } => "translation unit '"@
                + unit + "' has a custom return type, but its arm '"@ + arm
                + "' doesn't have a raw body (required)"@,
        }
    }

    /// The place that the error points at, if it has one.
    pub open spec fn span(self) -> Option<Span> {
        match self {
            CheckErrorView::UnreachablePattern { span, .. } => span,
            CheckErrorView::UnknownLanguage { span, .. } => span,
            CheckErrorView::MissingFallbackForTypedUnit { span, .. } => span,
            CheckErrorView::CustomReturnRequiresRawBody { body_span, .. } => Some(body_span),
        }
    }
}

impl CheckError {
    /// The error as a sentence.
    pub fn message(&self) -> (text: String)
        ensures
            text@ == self@.message(),
    {
        match self {
            CheckError::UnreachablePattern { pattern, .. } => concat3(
                "unreachable pattern '",
                pattern.as_str(),
                "'",
            ),
            CheckError::UnknownLanguage { name, .. } => concat3(
                "'",
                name.as_str(),
                "' is not a valid language",
            ),
            CheckError::MissingFallbackForTypedUnit { unit, .. } => concat3(
                "translation unit '",
                unit.as_str(),
                "' has a custom return type, but its arms do not match every locale",
            ),
            CheckError::CustomReturnRequiresRawBody { unit, arm, .. } => {
                let mut text = concat3(
                    "translation unit '",
                    unit.as_str(),
                    "' has a custom return type, but its arm '",
                );
                text.append(arm.as_str());
                text.append("' doesn't have a raw body (required)");
                text
            },
        }
    }

    /// The place that the error points at, if it has one.
    pub fn span(&self) -> (span: Option<Span>)
        ensures
            span == self@.span(),
    {
        match self {
            CheckError::UnreachablePattern { span, .. } => *span,
            CheckError::UnknownLanguage { span, .. } => *span,
            CheckError::MissingFallbackForTypedUnit { span, .. } => *span,
            CheckError::CustomReturnRequiresRawBody { body_span, .. } => Some(*body_span),
        }
    }
}

impl TemplateErrorView {
    /// The error as a sentence.
    pub open spec fn message(self) -> Seq<char> {
        match self {
            TemplateErrorView::InvalidExpression { expr, .. } => "not a valid expression in placeholder: '"@
                + expr + "'"@,
        }
    }
}

impl TemplateError {
    /// The error as a sentence.
    pub fn message(&self) -> (text: String)
        ensures
            text@ == self@.message(),
    {
        match self {
            TemplateError::InvalidExpression { expr, .. } => concat3(
                "not a valid expression in placeholder: '",
                expr.as_str(),
                "'",
            ),
        }
    }
}

impl GenErrorView {
    /// The error as a sentence.
    pub open spec fn message(self) -> Seq<char> {
        match self {
            GenErrorView::Check(e) => e.message(),
            GenErrorView::Template(e) => e.message(),
        }
    }
}

impl GenError {
    /// The error as a sentence.
    pub fn message(&self) -> (text: String)
        ensures
            text@ == self@.message(),
    {
        match self {
            GenError::Check(e) => e.message(),
            GenError::Template(e) => e.message(),
        }
    }
}

} // verus!
