//! The small parts: the fixed locale type, tokens, names, the places of
//! module sources and the template scanner.
use mauzi::ast::{ArmBody, ArmPattern, Ident};
use mauzi::emit::{new_stream, push_string};
use mauzi::error::{CheckError, Expected, GenError, ParseError, TemplateError};
use mauzi::runtime::{DeRegion, EnRegion, Locale};
use mauzi::naming::{child_names, decimal, type_name_of};
use mauzi::sources::{
    declared_modules, descend, flat_file_name, max_module_depth, package_file_name,
    select_location, ModuleLocation, ModuleSource, ModuleSources, Resolution, ResolveError,
};
use mauzi::template::{compile_template, lex_each, reject_invalid, scan_template, Template};
use mauzi::token::{
    clone_tokens, eq_delim, eq_spacing, Delimiter, Spacing, Span, Spanned, Token, TokenKind,
};

#[test]
fn locale_constructors() {
    assert_eq!(Locale::de(), Locale::De(DeRegion::NoRegion));
    assert_eq!(Locale::en(), Locale::En(EnRegion::NoRegion));
}

#[test]
fn locale_from_language_name() {
    assert_eq!(Locale::from_variant_str("De"), Some(Locale::de()));
    assert_eq!(Locale::from_variant_str("En"), Some(Locale::en()));
    assert_eq!(Locale::from_variant_str("de"), None);
    assert_eq!(Locale::from_variant_str(""), None);
    assert_eq!(Locale::from_variant_str("Fr"), None);
}

#[test]
fn locale_with_region_name() {
    let de = Locale::de();
    assert_eq!(de.with_region_variant_str("At"), Some(Locale::De(DeRegion::At)));
    assert_eq!(de.with_region_variant_str("Ch"), Some(Locale::De(DeRegion::Ch)));
    assert_eq!(de.with_region_variant_str("De"), Some(Locale::De(DeRegion::De)));
    assert_eq!(de.with_region_variant_str("Gb"), None);
    assert_eq!(de.with_region_variant_str("NoRegion"), None);
    let en = Locale::En(EnRegion::Us);
    assert_eq!(en.with_region_variant_str("Gb"), Some(Locale::En(EnRegion::Gb)));
    assert_eq!(en.with_region_variant_str("Us"), Some(Locale::En(EnRegion::Us)));
    assert_eq!(en.with_region_variant_str("At"), None);
    assert_eq!(en.with_region_variant_str("region"), None);
}

#[test]
fn locale_region_type_name() {
    assert_eq!(Locale::de().region_type_str(), "DeRegion");
    assert_eq!(Locale::De(DeRegion::Ch).region_type_str(), "DeRegion");
    assert_eq!(Locale::en().region_type_str(), "EnRegion");
}

#[test]
fn delimiters_and_spacings_compare() {
    let delimiters =
        [Delimiter::Parenthesis, Delimiter::Brace, Delimiter::Bracket, Delimiter::Invisible];
    for a in delimiters {
        for b in delimiters {
            assert_eq!(eq_delim(a, b), a == b);
        }
    }
    for a in [Spacing::Alone, Spacing::Joint] {
        for b in [Spacing::Alone, Spacing::Joint] {
            assert_eq!(eq_spacing(a, b), a == b);
        }
    }
}

#[test]
fn token_kinds_are_told_apart() {
    let at = Span::call_site();
    let group = Token::group(Delimiter::Brace, vec![], at);
    let term = Token::term("x", at);
    let op = Token::op('+', Spacing::Joint, at);
    let literal =
        Token { kind: TokenKind::Literal { text: "1".to_string(), string: None }, span: at };
    let verbatim = Token::verbatim("a + b", at);
    assert!(group.kind.is_group() && !group.kind.is_term());
    assert!(term.kind.is_term() && !term.kind.is_op());
    assert!(op.kind.is_op() && !op.kind.is_literal());
    assert!(literal.kind.is_literal() && !literal.kind.is_group());
    assert!(!verbatim.kind.is_group() && !verbatim.kind.is_term());
    assert_eq!(op.kind, TokenKind::Op('+', Spacing::Joint));
    assert_eq!(verbatim.kind, TokenKind::Verbatim("a + b".to_string()));
}

#[test]
fn copies_of_tokens_are_equal_to_them() {
    let at = Span { lo: 3, hi: 9 };
    let inner = vec![Token::term("x", at), Token::op(',', Spacing::Alone, at)];
    let tokens = vec![
        Token::group(Delimiter::Parenthesis, inner, at),
        Token {
            kind: TokenKind::Literal { text: "\"s\"".to_string(), string: Some("s".to_string()) },
            span: at,
        },
        Token::verbatim("code", at),
    ];
    assert_eq!(clone_tokens(&tokens), tokens);
    assert_eq!(tokens[0].duplicate(), tokens[0]);
}

#[test]
fn spanned_holds_value_and_place() {
    let spanned = Spanned::new(7u8, Span { lo: 1, hi: 2 });
    assert_eq!(spanned.obj, 7);
    assert_eq!(spanned.span, Span { lo: 1, hi: 2 });
}

#[test]
fn names_and_their_places() {
    let at = Span { lo: 4, hi: 5 };
    let written = Ident::new("De".to_string(), at);
    assert_eq!(written.as_str(), "De");
    assert_eq!(written.span(), Some(at));
    assert_eq!(written.into_token(), Token::term("De", at));
    let internal = Ident::internal("Locale");
    assert_eq!(internal.span(), None);
    assert_eq!(internal.into_token(), Token::term("Locale", Span::call_site()));
    let exported = Ident::exported("new");
    assert_eq!(exported.span(), Some(Span::call_site()));
    assert_eq!(Ident::export("new"), Token::term("new", Span::call_site()));
    assert_eq!(written.duplicate(), written);
}

#[test]
fn patterns_as_text() {
    let at = Span { lo: 0, hi: 1 };
    assert_eq!(ArmPattern::Underscore(at).to_text(), "_");
    assert_eq!(ArmPattern::Lang(Ident::internal("En")).to_text(), "En");
    let pattern = ArmPattern::WithRegion {
        lang: Ident::internal("En"),
        region: Ident::internal("Gb"),
    };
    assert_eq!(pattern.to_text(), "En(Gb)");
    assert_eq!(pattern.duplicate(), pattern);
    assert_eq!(pattern.span(), None);
    assert_eq!(ArmPattern::Underscore(at).span(), Some(at));
    assert!(ArmBody::Raw(vec![]).is_raw_block());
    assert!(!ArmBody::Str(String::new()).is_raw_block());
}

#[test]
fn exactly_one_place_must_hold_a_module() {
    assert_eq!(select_location(false, false), Err(ResolveError::NotFound));
    assert_eq!(select_location(true, true), Err(ResolveError::Ambiguous));
    assert_eq!(select_location(true, false), Ok(ModuleLocation::PackageStyle));
    assert_eq!(select_location(false, true), Ok(ModuleLocation::FlatFile));
}

#[test]
fn module_file_names() {
    assert_eq!(package_file_name(), "mod.mauzi.rs");
    assert_eq!(flat_file_name("foo"), "foo.mauzi.rs");
}

#[test]
fn first_entry_of_a_name_counts() {
    let entry = |name: &str, resolution| ModuleSource { name: name.to_string(), resolution };
    let sources = ModuleSources {
        entries: vec![
            entry("a", Resolution::NotFound),
            entry("b", Resolution::Ambiguous),
            entry("a", Resolution::Ambiguous),
        ],
    };
    assert_eq!(sources.find("a"), Some(0));
    assert_eq!(sources.find("b"), Some(1));
    assert_eq!(sources.find("c"), None);
    assert_eq!(ModuleSources::empty().find("a"), None);
}

#[test]
fn declared_modules_are_the_names_after_mod() {
    let at = Span::call_site();
    let word = |text: &str| Token::term(text, at);
    let semi = || Token::op(';', Spacing::Alone, at);
    let block = |inner: Vec<Token>| Token::group(Delimiter::Brace, inner, at);
    let tokens = vec![
        word("mod"), word("foo"), semi(),
        word("unit"), word("x"), block(vec![word("mod"), word("hidden"), semi()]),
        word("mod"), word("bar"), semi(),
        word("mod"),
    ];
    assert_eq!(declared_modules(&tokens), vec!["foo".to_string(), "bar".to_string()]);
    assert!(declared_modules(&vec![]).is_empty());
    assert!(declared_modules(&vec![word("mod")]).is_empty());
    assert!(declared_modules(&vec![word("mod"), semi(), word("foo")]).is_empty());
}

#[test]
fn text_without_braces_is_its_own_skeleton() {
    let t = scan_template("plain text");
    assert_eq!(t.skeleton, "plain text");
    assert_eq!(t.format, "plain text");
    assert!(t.exprs.is_empty());
    let empty = scan_template("");
    assert!(empty.skeleton.is_empty() && empty.format.is_empty() && empty.exprs.is_empty());
}

#[test]
fn placeholders_are_collected_from_left_to_right() {
    let t = scan_template("{a}-{b + 1}-{c.d()}");
    assert_eq!(t.skeleton, "{}-{}-{}");
    assert_eq!(t.format, "{}-{}-{}");
    assert_eq!(t.exprs, vec!["a".to_string(), "b + 1".to_string(), "c.d()".to_string()]);
}

#[test]
fn empty_placeholder_has_an_empty_expression() {
    let t = scan_template("a{}b");
    assert_eq!(t.skeleton, "a{}b");
    assert_eq!(t.exprs, vec![String::new()]);
}

#[test]
fn open_placeholder_at_the_end_is_taken_as_closed() {
    let t = scan_template("Hi {name");
    assert_eq!(t.skeleton, "Hi {}");
    assert_eq!(t.exprs, vec!["name".to_string()]);
    let t = scan_template("Hi {");
    assert_eq!(t.skeleton, "Hi {}");
    assert_eq!(t.exprs, vec![String::new()]);
}

#[test]
fn brace_inside_a_placeholder_belongs_to_the_expression() {
    let t = scan_template("{a{b}c");
    assert_eq!(t.skeleton, "{}c");
    assert_eq!(t.exprs, vec!["a{b".to_string()]);
    // A doubled brace is no escape inside a placeholder.
    let t = scan_template("{a{{b}}");
    assert_eq!(t.skeleton, "{}}");
    assert_eq!(t.format, "{}}}");
    assert_eq!(t.exprs, vec!["a{{b".to_string()]);
}

#[test]
fn literal_braces_are_doubled_in_the_format_string() {
    let t = scan_template("a}b}}c{{d");
    assert_eq!(t.skeleton, "a}b}c{d");
    assert_eq!(t.format, "a}}b}}c{{d");
    assert!(t.exprs.is_empty());
    let t = scan_template("{{{x}}}");
    assert_eq!(t.skeleton, "{{}}");
    assert_eq!(t.format, "{{{}}}");
    assert_eq!(t.exprs, vec!["x".to_string()]);
}

#[test]
fn text_is_scanned_by_characters_not_bytes() {
    let t = scan_template("größe {größe} ✓");
    assert_eq!(t.skeleton, "größe {} ✓");
    assert_eq!(t.exprs, vec!["größe".to_string()]);
}

#[test]
fn expressions_must_be_host_code() {
    assert!(compile_template("{a} and {b(1, 2)[3]}").is_ok());
    assert_eq!(
        compile_template("{a} {b)} {c(}"),
        Err(TemplateError::InvalidExpression { index: 1, expr: "b)".to_string() })
    );
    assert_eq!(
        compile_template("{\"}"),
        Err(TemplateError::InvalidExpression { index: 0, expr: "\"".to_string() })
    );
    // An empty expression splits into no tokens, which is fine for the lexer.
    assert!(compile_template("{}").is_ok());
}

#[test]
fn lexer_verdicts_one_per_expression() {
    let exprs = vec!["a".to_string(), "(".to_string(), "1 + 1".to_string(), "'".to_string()];
    assert_eq!(lex_each(&exprs), vec![true, false, true, false]);
    assert!(lex_each(&vec![]).is_empty());
}

#[test]
fn first_rejected_expression_is_reported() {
    let template = || Template {
        skeleton: "{}{}{}".to_string(),
        format: "{}{}{}".to_string(),
        exprs: vec!["a".to_string(), "b".to_string(), "c".to_string()],
    };
    assert_eq!(reject_invalid(template(), &vec![true, true, true]), Ok(template()));
    assert_eq!(
        reject_invalid(template(), &vec![true, false, false]),
        Err(TemplateError::InvalidExpression { index: 1, expr: "b".to_string() })
    );
    assert_eq!(
        reject_invalid(template(), &vec![false]),
        Err(TemplateError::InvalidExpression { index: 0, expr: "a".to_string() })
    );
    // Verdicts without an expression count for nothing.
    assert_eq!(reject_invalid(template(), &vec![true, true, true, false]), Ok(template()));
    assert_eq!(reject_invalid(template(), &vec![]), Ok(template()));
}

#[test]
fn parse_errors_as_sentences() {
    let at = Span { lo: 3, hi: 4 };
    let unexpected = |expected| ParseError::UnexpectedToken { expected, found: Token::term("x", at) };
    let message = |expected| unexpected(expected).message();
    assert_eq!(message(Expected::Identifier), "expected an identifier");
    assert_eq!(message(Expected::Keyword("enum".to_string())), "expected keyword 'enum'");
    assert_eq!(message(Expected::Group), "expected a block");
    assert_eq!(
        message(Expected::GroupDelimitedBy(Delimiter::Bracket)),
        "expected a block delimited by '['"
    );
    assert_eq!(
        message(Expected::GroupDelimitedBy(Delimiter::Parenthesis)),
        "expected a block delimited by '('"
    );
    assert_eq!(
        message(Expected::GroupDelimitedBy(Delimiter::Invisible)),
        "expected a block delimited by ''"
    );
    assert_eq!(message(Expected::Literal), "expected a literal");
    assert_eq!(message(Expected::StringLiteral), "expected a string literal");
    assert_eq!(message(Expected::Operator(';')), "expected ';'");
    assert_eq!(message(Expected::Arrow), "expected '->'");
    assert_eq!(message(Expected::FatArrow), "expected '=>'");
    assert_eq!(message(Expected::Body), "expected a block delimited by '{'");
    assert_eq!(
        message(Expected::ArrowOrBody),
        "expected '->' or a block delimited by '{'"
    );
    assert_eq!(
        message(Expected::ParamsArrowOrBody),
        "expected '(', '->' or a block delimited by '{'"
    );
    assert_eq!(message(Expected::EndOfGroup), "expected the end of the group");
    assert_eq!(unexpected(Expected::Group).span(), Some(at));

    let block = ParseError::UnexpectedToken {
        expected: Expected::Identifier,
        found: Token::group(Delimiter::Brace, vec![Token::term("a", at)], at),
    };
    assert_eq!(block.message(), "expected an identifier");

    assert_eq!(ParseError::EndOfInput.message(), "unexpected end of input");
    assert_eq!(ParseError::EndOfInput.span(), None);
    let keyword = ParseError::UnknownItemKeyword { keyword: "fn".to_string(), span: Some(at) };
    assert_eq!(keyword.message(), "expected item, found identifier 'fn'");
    assert_eq!(keyword.span(), Some(at));
    let missing = ParseError::ModuleNotFound { name: "foo".to_string(), span: None };
    assert_eq!(missing.message(), "cannot find a source for module 'foo'");
    assert_eq!(missing.span(), None);
    let unreadable = ParseError::UnreadableModule {
        name: "foo".to_string(),
        span: Some(at),
        reason: "cannot read 'foo.mauzi.rs'".to_string(),
    };
    assert_eq!(unreadable.message(), "error reading module 'foo': cannot read 'foo.mauzi.rs'");
    assert_eq!(unreadable.span(), Some(at));
    let twice = ParseError::AmbiguousModule { name: "foo".to_string(), span: Some(at) };
    assert_eq!(twice.message(), "ambiguity when loading module 'foo': two sources exist");
    assert_eq!(twice.span(), Some(at));
}

#[test]
fn check_and_generation_errors_as_sentences() {
    let at = Span { lo: 3, hi: 4 };
    let unreachable = CheckError::UnreachablePattern { pattern: "En(Gb)".to_string(), span: Some(at) };
    assert_eq!(unreachable.message(), "unreachable pattern 'En(Gb)'");
    assert_eq!(unreachable.span(), Some(at));
    let unknown = CheckError::UnknownLanguage { name: "Fr".to_string(), span: None };
    assert_eq!(unknown.message(), "'Fr' is not a valid language");
    assert_eq!(unknown.span(), None);
    let missing = CheckError::MissingFallbackForTypedUnit { unit: "n".to_string(), span: Some(at) };
    assert_eq!(
        missing.message(),
        "translation unit 'n' has a custom return type, but its arms do not match every locale"
    );
    let raw = CheckError::CustomReturnRequiresRawBody {
        unit: "n".to_string(),
        arm: "De".to_string(),
        body_span: at,
    };
    assert_eq!(
        raw.message(),
        "translation unit 'n' has a custom return type, but its arm 'De' doesn't have a raw body \
         (required)"
    );
    assert_eq!(raw.span(), Some(at));
    let template = TemplateError::InvalidExpression { index: 2, expr: "a(".to_string() };
    assert_eq!(template.message(), "not a valid expression in placeholder: 'a('");
    assert_eq!(GenError::Template(template).message(), "not a valid expression in placeholder: 'a('");
    assert_eq!(GenError::Check(unknown).message(), "'Fr' is not a valid language");
    assert_eq!(Expected::Operator('x').to_text(), "'x'");
}

#[test]
fn nesting_of_modules_is_bounded() {
    assert_eq!(max_module_depth(), 64);
    assert_eq!(descend(64), Some(63));
    assert_eq!(descend(1), Some(0));
    assert_eq!(descend(0), None);
    // Exactly `max_module_depth()` levels can be followed.
    let mut depth = max_module_depth();
    let mut levels = 0;
    while let Some(below) = descend(depth) {
        depth = below;
        levels += 1;
    }
    assert_eq!(levels, 64);
}

#[test]
fn numbers_in_decimal_notation() {
    assert_eq!(decimal(0), "0");
    assert_eq!(decimal(7), "7");
    assert_eq!(decimal(10), "10");
    assert_eq!(decimal(409), "409");
    assert_eq!(decimal(1234567890), "1234567890");
    assert_eq!(decimal(usize::MAX), usize::MAX.to_string());
}

#[test]
fn type_names_are_made_of_lengths_and_names() {
    assert_eq!(type_name_of(""), "Dict");
    assert_eq!(child_names("", "foo"), ("_3_foo".to_string(), "Dict_3_foo".to_string()));
    assert_eq!(
        child_names("_3_foo", "bar_baz"),
        ("_3_foo_7_bar_baz".to_string(), "Dict_3_foo_7_bar_baz".to_string())
    );
    // The length counts characters, not bytes.
    assert_eq!(child_names("", "größe").1, "Dict_5_größe");
    let below = |outer: &str, inner: &str| child_names(&child_names("", outer).0, inner).1;
    assert_ne!(below("a", "b"), child_names("", "a__b").1);
    assert_ne!(below("a_", "b"), below("a", "_b"));
    assert_ne!(below("a", "b_1_c"), below("a_1_b", "c"));
}

/// The text of the literal that `push_string` writes for `value`.
fn literal_text(value: &str) -> String {
    let mut out = new_stream();
    push_string(&mut out, value);
    assert_eq!(out.len(), 1);
    match &out[0].kind {
        TokenKind::Literal { text, string } => {
            assert_eq!(string.as_deref(), Some(value));
            text.clone()
        }
        other => panic!("no literal: {:?}", other),
    }
}

#[test]
fn string_literal_stands_between_double_quotes() {
    assert_eq!(literal_text(""), "\"\"");
    assert_eq!(literal_text("cat"), "\"cat\"");
    assert_eq!(literal_text(" ~"), "\" ~\"");
}

#[test]
fn string_literal_escapes_each_character() {
    assert_eq!(literal_text("\t"), "\"\\t\"");
    assert_eq!(literal_text("\r"), "\"\\r\"");
    assert_eq!(literal_text("\n"), "\"\\n\"");
    assert_eq!(literal_text("'"), "\"\\'\"");
    assert_eq!(literal_text("\""), "\"\\\"\"");
    assert_eq!(literal_text("\\"), "\"\\\\\"");
    assert_eq!(literal_text("a\"b\\c"), "\"a\\\"b\\\\c\"");
}

#[test]
fn string_literal_writes_other_characters_by_their_number() {
    assert_eq!(literal_text("\0"), "\"\\u{0}\"");
    assert_eq!(literal_text("\u{1f}"), "\"\\u{1f}\"");
    assert_eq!(literal_text("\u{7f}"), "\"\\u{7f}\"");
    assert_eq!(literal_text("é"), "\"\\u{e9}\"");
    assert_eq!(literal_text("Größe"), "\"Gr\\u{f6}\\u{df}e\"");
    assert_eq!(literal_text("❤"), "\"\\u{2764}\"");
    assert_eq!(literal_text("\u{10ffff}"), "\"\\u{10ffff}\"");
}
