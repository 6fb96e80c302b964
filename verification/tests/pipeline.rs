//! The whole pipeline on dictionaries written as text: the text is split
//! into tokens by `proc_macro2`, parsed, checked and lowered, and the code
//! that comes out is rendered and split into tokens again.
use literalext::LiteralExt;
use mauzi::ast::{ArmBody, ArmPattern, Dict, Ident, LocaleDef, Mod, TransUnit};
use mauzi::check::check;
use mauzi::error::{CheckError, GenError, ParseError, TemplateError};
use mauzi::gen::gen;
use mauzi::parse::parse;
use mauzi::sources::{declared_modules, ModuleFile, ModuleSource, ModuleSources, Resolution};
use mauzi::token::{Delimiter, Spacing, Span, Token, TokenKind};

fn convert(stream: proc_macro2::TokenStream, next: &mut usize) -> Vec<Token> {
    let mut out = Vec::new();
    for tree in stream {
        let lo = *next;
        *next += 1;
        let kind = match tree.kind {
            proc_macro2::TokenNode::Group(delimiter, inner) => {
                let delimiter = match delimiter {
                    proc_macro2::Delimiter::Parenthesis => Delimiter::Parenthesis,
                    proc_macro2::Delimiter::Brace => Delimiter::Brace,
                    proc_macro2::Delimiter::Bracket => Delimiter::Bracket,
                    proc_macro2::Delimiter::None => Delimiter::Invisible,
                };
                TokenKind::Group(delimiter, convert(inner, next))
            }
            proc_macro2::TokenNode::Term(term) => TokenKind::Term(term.as_str().to_string()),
            proc_macro2::TokenNode::Op(glyph, spacing) => TokenKind::Op(
                glyph,
                match spacing {
                    proc_macro2::Spacing::Alone => Spacing::Alone,
                    proc_macro2::Spacing::Joint => Spacing::Joint,
                },
            ),
            proc_macro2::TokenNode::Literal(literal) => TokenKind::Literal {
                text: literal.to_string(),
                string: literal.parse_string(),
            },
        };
        out.push(Token { kind, span: Span { lo, hi: *next } });
    }
    out
}

fn lex(source: &str) -> Vec<Token> {
    let stream: proc_macro2::TokenStream = source.parse().expect("the test's source lexes");
    convert(stream, &mut 1)
}

fn render(tokens: &[Token], out: &mut String) {
    for token in tokens {
        match &token.kind {
            TokenKind::Group(delimiter, inner) => {
                let (open, close) = match delimiter {
                    Delimiter::Parenthesis => ("(", ")"),
                    Delimiter::Brace => ("{", "}"),
                    Delimiter::Bracket => ("[", "]"),
                    Delimiter::Invisible => ("", ""),
                };
                out.push_str(open);
                out.push(' ');
                render(inner, out);
                out.push_str(close);
                out.push(' ');
            }
            TokenKind::Term(text) => {
                out.push_str(text);
                out.push(' ');
            }
            TokenKind::Op(glyph, spacing) => {
                out.push(*glyph);
                if *spacing == Spacing::Alone {
                    out.push(' ');
                }
            }
            TokenKind::Literal { text, .. } => {
                out.push_str(text);
                out.push(' ');
            }
            TokenKind::Verbatim(code) => {
                out.push_str(code);
                out.push(' ');
            }
        }
    }
}

fn rendered(tokens: &[Token]) -> String {
    let mut out = String::new();
    render(tokens, &mut out);
    out.trim_end().to_string()
}

fn parse_text(source: &str) -> Result<Dict, ParseError> {
    parse(&lex(source), &ModuleSources::empty())
}

const FULL: &str = r#"
    enum Locale {
        De,
        En { Gb, Us },
    }

    unit fav_color {
        De => "Was ist deine Lieblingsfarbe?",
        En(Gb) => "What is your favourite colour?",
        En(Us) => "What is your favorite color?",
    }

    unit greet(name: &str) {
        En(Gb) => "Hi {name}! Are you all right, mate?",
        En(Us) => "Hi {name}! How are you, buddy?",
        De => "Hallo {name}, wie geht's dir?",
    }

    unit new_emails(count: u32) {
        En => {
            match count {
                1 => "You have one new email".to_string(),
                _ => format!("You have {} new emails", count),
            }
        }
        De => {
            match count {
                1 => "Sie haben eine neue E-Mail".to_string(),
                _ => format!("Sie haben {} neue E-Mails", count),
            }
        }
    }

    unit number_of_umlauts -> u32 {
        De => { 3 },
        En => { 0 },
    }
"#;

#[test]
fn full_example_parses() {
    let dict = parse_text(FULL).unwrap();
    assert_eq!(dict.locale_def.langs.len(), 2);
    assert_eq!(dict.locale_def.langs[0].name.name, "De");
    assert!(dict.locale_def.langs[0].regions.is_empty());
    assert_eq!(dict.locale_def.langs[1].name.name, "En");
    let regions: Vec<&str> =
        dict.locale_def.langs[1].regions.iter().map(|r| r.name.as_str()).collect();
    assert_eq!(regions, vec!["Gb", "Us"]);
    let names: Vec<&str> = dict.trans_units.iter().map(|u| u.name.name.as_str()).collect();
    assert_eq!(names, vec!["fav_color", "greet", "new_emails", "number_of_umlauts"]);
    assert!(dict.modules.is_empty());

    let fav = &dict.trans_units[0];
    assert!(fav.params.is_none());
    assert!(fav.return_type.is_none());
    assert_eq!(fav.body.arms.len(), 3);
    assert_eq!(fav.body.arms[1].pattern.to_text(), "En(Gb)");
    assert_eq!(
        fav.body.arms[1].body.obj,
        ArmBody::Str("What is your favourite colour?".to_string())
    );

    let greet = &dict.trans_units[1];
    let params = greet.params.as_ref().unwrap();
    assert_eq!(params.len(), 1);
    assert_eq!(params[0].name.name, "name");
    assert_eq!(rendered(&params[0].ty.0), "& str");

    let emails = &dict.trans_units[2];
    assert!(emails.body.arms[0].body.obj.is_raw_block());

    let umlauts = &dict.trans_units[3];
    assert_eq!(rendered(&umlauts.return_type.as_ref().unwrap().0), "u32");
}

#[test]
fn full_example_passes_the_check() {
    let dict = parse_text(FULL).unwrap();
    assert_eq!(check(&dict), Ok(()));
}

#[test]
fn full_example_generates_code_that_lexes() {
    let dict = parse_text(FULL).unwrap();
    let code = gen(dict).unwrap();
    let text = rendered(&code);
    assert!(text.parse::<proc_macro2::TokenStream>().is_ok(), "{}", text);
    assert!(text.starts_with(
        "# [ derive ( Debug , Clone , Copy ) ] pub enum Locale { De , En ( EnRegion ) , } \
         # [ derive ( Debug , Clone , Copy ) ] pub enum EnRegion { Gb , Us , } \
         pub fn new ( locale : Locale ) -> Dict { Dict :: new ( locale ) }"
    ), "{}", text);
    assert!(text.contains(
        "pub fn greet ( & self , name : & str ) -> String { match self . locale { \
         Locale :: En ( EnRegion :: Gb ) => { format ! ( \
         \"Hi {}! Are you all right, mate?\" , name ) }"
    ), "{}", text);
    assert!(text.contains(
        "pub fn number_of_umlauts ( & self ) -> u32 { match self . locale { \
         Locale :: De => { 3 } Locale :: En ( _ ) => { 0 } } }"
    ), "{}", text);
}

#[test]
fn simple_unit_generates_exactly_this() {
    let dict = parse_text(r#"enum Locale { De, En } unit cat { De => "Katze", En => "cat" }"#)
        .unwrap();
    let text = rendered(&gen(dict).unwrap());
    assert_eq!(
        text,
        "# [ derive ( Debug , Clone , Copy ) ] pub enum Locale { De , En , } \
         pub fn new ( locale : Locale ) -> Dict { Dict :: new ( locale ) } \
         # [ allow ( non_camel_case_types ) ] # [ allow ( dead_code ) ] \
         pub struct Dict { locale : Locale , } \
         impl Dict { pub fn new ( locale : Locale ) -> Self { Self { locale , } } \
         pub fn cat ( & self ) -> String { match self . locale { \
         Locale :: De => { format ! ( \"Katze\" ) } \
         Locale :: En => { format ! ( \"cat\" ) } } } }"
    );
}

#[test]
fn non_exhaustive_text_unit_gets_the_fallback_clause() {
    let dict = parse_text(r#"enum Locale { De, En } unit cat { En => "cat" }"#).unwrap();
    assert_eq!(check(&dict), Ok(()));
    let text = rendered(&gen(dict).unwrap());
    assert!(text.ends_with(
        "pub fn cat ( & self ) -> String { match self . locale { \
         Locale :: En => { format ! ( \"cat\" ) } \
         _ => \"[[MISSING TRANSLATION FOR \\'cat\\']]\" . into ( ) , } } }"
    ), "{}", text);
}

#[test]
fn exhaustive_unit_gets_no_fallback_clause() {
    let dict = parse_text(r#"enum Locale { De, En } unit cat { De => "Katze", En => "cat" }"#)
        .unwrap();
    let text = rendered(&gen(dict).unwrap());
    assert!(!text.contains("MISSING TRANSLATION"));
}

#[test]
fn typed_unit_that_is_not_exhaustive_is_refused() {
    let dict = parse_text(r#"enum Locale { De, En } unit n -> u32 { De => { 3 } }"#).unwrap();
    let expected = CheckError::MissingFallbackForTypedUnit {
        unit: "n".to_string(),
        span: dict.trans_units[0].name.span,
    };
    assert_eq!(check(&dict), Err(expected));
    let dict = parse_text(r#"enum Locale { De, En } unit n -> u32 { De => { 3 } }"#).unwrap();
    match gen(dict) {
        Err(GenError::Check(CheckError::MissingFallbackForTypedUnit { unit, .. })) => {
            assert_eq!(unit, "n")
        }
        other => panic!("{:?}", other),
    }
}

#[test]
fn typed_unit_with_string_body_is_refused() {
    let dict =
        parse_text(r#"enum Locale { De, En } unit n -> CustomType { De => { x }, En => "text" }"#)
            .unwrap();
    match check(&dict) {
        Err(CheckError::CustomReturnRequiresRawBody { unit, arm, .. }) => {
            assert_eq!(unit, "n");
            assert_eq!(arm, "En");
        }
        other => panic!("{:?}", other),
    }
}

#[test]
fn placeholder_that_is_not_host_code_fails_generation() {
    let dict = parse_text(r#"enum Locale { De } unit x { De => "a {b c(} d" }"#).unwrap();
    assert_eq!(check(&dict), Ok(()));
    assert_eq!(
        gen(dict),
        Err(GenError::Template(TemplateError::InvalidExpression {
            index: 0,
            expr: "b c(".to_string(),
        }))
    );
}

#[test]
fn string_literal_is_written_with_quotes_and_escapes() {
    let dict = parse_text("enum Locale { De } unit x { De => \"say \\\"hi\\\"\\n\" }").unwrap();
    assert_eq!(dict.trans_units[0].body.arms[0].body.obj, ArmBody::Str("say \"hi\"\n".to_string()));
    let text = rendered(&gen(dict).unwrap());
    assert!(text.contains("format ! ( \"say \\\"hi\\\"\\n\" )"), "{}", text);
}

#[test]
fn bindings_and_wildcards_generate_binding_patterns() {
    let dict = parse_text(
        r#"enum Locale { De, En { Gb, Us } }
           unit x { En(Gb) => "a", En(region) => { f(region) } De => "c" }
           unit y { De => "a", other => { g(other) } }
           unit z { De => "a", _ => "b" }"#,
    )
    .unwrap();
    assert_eq!(check(&dict), Ok(()));
    let text = rendered(&gen(dict).unwrap());
    assert!(text.contains(
        "Locale :: En ( EnRegion :: Gb ) => { format ! ( \"a\" ) } \
         Locale :: En ( region ) => { f ( region ) } \
         Locale :: De => { format ! ( \"c\" ) } } }"
    ), "{}", text);
    assert!(text.contains("Locale :: De => { format ! ( \"a\" ) } other => { g ( other ) } } }"));
    assert!(text.contains("Locale :: De => { format ! ( \"a\" ) } _ => { format ! ( \"b\" ) } } }"));
}

fn module(name: &str, source: &str, below: Vec<ModuleSource>) -> ModuleSource {
    ModuleSource {
        name: name.to_string(),
        resolution: Resolution::Found(ModuleFile {
            tokens: lex(source),
            sources: ModuleSources { entries: below },
        }),
    }
}

const WITH_MODULES: &str = r#"
    enum Locale { De, En }
    mod foo;
    mod bar;
    unit cat { De => "Katze", En => "cat" }
"#;

fn module_sources() -> ModuleSources {
    ModuleSources {
        entries: vec![
            module("bar", r#"mod baz; unit hello_world { De => "Hallo Welt", En => "Hello World" }"#,
                vec![module("baz", r#"unit bye_world { De => "Tschau", En => "Bye" }"#, vec![])]),
            module("foo", r#"unit greet(name: &str) { De => "Hallo {name}", En => "Hi {name}" }"#,
                vec![]),
        ],
    }
}

#[test]
fn modules_are_read_from_their_sources() {
    let dict = parse(&lex(WITH_MODULES), &module_sources()).unwrap();
    let names: Vec<&str> = dict.modules.iter().map(|m| m.name.name.as_str()).collect();
    assert_eq!(names, vec!["foo", "bar"]);
    assert_eq!(dict.modules[0].trans_units[0].name.name, "greet");
    assert_eq!(dict.modules[1].modules[0].name.name, "baz");
    assert_eq!(dict.modules[1].modules[0].trans_units[0].name.name, "bye_world");
    // The root's units come first, then those of the modules, the last
    // module first.
    let all: Vec<&str> = dict.units().iter().map(|u| u.name.name.as_str()).collect();
    assert_eq!(all, vec!["cat", "hello_world", "bye_world", "greet"]);
    assert_eq!(check(&dict), Ok(()));
}

#[test]
fn modules_get_dispatch_types_of_their_own() {
    let dict = parse(&lex(WITH_MODULES), &module_sources()).unwrap();
    let text = rendered(&gen(dict).unwrap());
    assert!(text.parse::<proc_macro2::TokenStream>().is_ok(), "{}", text);
    assert!(text.contains("pub struct Dict_3_foo { locale : Locale , }"), "{}", text);
    assert!(text.contains("pub struct Dict_3_bar_3_baz { locale : Locale , }"), "{}", text);
    assert!(text.contains(
        "pub struct Dict_3_bar { locale : Locale , pub baz : Dict_3_bar_3_baz , }"
    ), "{}", text);
    assert!(text.contains(
        "pub struct Dict { locale : Locale , pub foo : Dict_3_foo , pub bar : Dict_3_bar , }"
    ), "{}", text);
    assert!(text.contains(
        "impl Dict { pub fn new ( locale : Locale ) -> Self { Self { locale , \
         foo : Dict_3_foo :: new ( locale ) , bar : Dict_3_bar :: new ( locale ) , } }"
    ), "{}", text);
    // The types of the modules stand before the type that holds them.
    let foo = text.find("pub struct Dict_3_foo {").unwrap();
    let baz = text.find("pub struct Dict_3_bar_3_baz {").unwrap();
    let bar = text.find("pub struct Dict_3_bar {").unwrap();
    let root = text.find("pub struct Dict {").unwrap();
    assert!(foo < baz && baz < bar && bar < root);
}

#[test]
fn module_without_source_is_not_found() {
    let tokens = lex("enum Locale { De } mod nowhere;");
    match parse(&tokens, &ModuleSources::empty()) {
        Err(ParseError::ModuleNotFound { name, span }) => {
            assert_eq!(name, "nowhere");
            assert!(span.is_some());
        }
        other => panic!("{:?}", other),
    }
    let listed = ModuleSources {
        entries: vec![ModuleSource {
            name: "nowhere".to_string(),
            resolution: Resolution::NotFound,
        }],
    };
    assert!(matches!(parse(&tokens, &listed), Err(ParseError::ModuleNotFound { .. })));
}

#[test]
fn module_with_two_sources_is_ambiguous() {
    let tokens = lex("enum Locale { De } mod twice;");
    let sources = ModuleSources {
        entries: vec![ModuleSource {
            name: "twice".to_string(),
            resolution: Resolution::Ambiguous,
        }],
    };
    match parse(&tokens, &sources) {
        Err(ParseError::AmbiguousModule { name, .. }) => assert_eq!(name, "twice"),
        other => panic!("{:?}", other),
    }
}

#[test]
fn error_inside_a_module_is_the_error_of_the_dictionary() {
    let tokens = lex("enum Locale { De } mod broken;");
    let sources = ModuleSources { entries: vec![module("broken", "fn x {}", vec![])] };
    match parse(&tokens, &sources) {
        Err(ParseError::UnknownItemKeyword { keyword, .. }) => assert_eq!(keyword, "fn"),
        other => panic!("{:?}", other),
    }
}

#[test]
fn pattern_kinds_are_told_apart() {
    let dict = parse_text(
        r#"enum Locale { De } unit x { _ => "a", De => "b", De(At) => "c", }"#,
    )
    .unwrap();
    let arms = &dict.trans_units[0].body.arms;
    assert!(arms[0].pattern.is_underscore());
    assert!(matches!(&arms[1].pattern, ArmPattern::Lang(lang) if lang.name == "De"));
    assert!(matches!(
        &arms[2].pattern,
        ArmPattern::WithRegion { lang, region } if lang.name == "De" && region.name == "At"
    ));
}

#[test]
fn declared_modules_are_those_that_the_parser_asks_for() {
    assert_eq!(declared_modules(&lex(WITH_MODULES)), vec!["foo".to_string(), "bar".to_string()]);
    assert!(declared_modules(&lex(FULL)).is_empty());
}

// The canonical written form of a dictionary: a comma after every language,
// region, parameter and arm; the modules of a source before its units.

fn word(text: &str) -> Token {
    Token::term(text, Span::call_site())
}

fn punct(glyph: char, spacing: Spacing) -> Token {
    Token::op(glyph, spacing, Span::call_site())
}

fn write_ident(ident: &Ident, out: &mut Vec<Token>) {
    out.push(ident.into_token());
}

fn write_locale_def(locale: &LocaleDef, out: &mut Vec<Token>) {
    let mut langs = Vec::new();
    for lang in &locale.langs {
        write_ident(&lang.name, &mut langs);
        if !lang.regions.is_empty() {
            let mut regions = Vec::new();
            for region in &lang.regions {
                write_ident(region, &mut regions);
                regions.push(punct(',', Spacing::Alone));
            }
            langs.push(Token::group(Delimiter::Brace, regions, Span::call_site()));
        }
        langs.push(punct(',', Spacing::Alone));
    }
    out.push(word("enum"));
    out.push(word("Locale"));
    out.push(Token::group(Delimiter::Brace, langs, Span::call_site()));
}

fn write_unit(unit: &TransUnit, out: &mut Vec<Token>) {
    out.push(word("unit"));
    write_ident(&unit.name, out);
    if let Some(params) = &unit.params {
        let mut list = Vec::new();
        for param in params {
            write_ident(&param.name, &mut list);
            list.push(punct(':', Spacing::Alone));
            list.extend(mauzi::token::clone_tokens(&param.ty.0));
            list.push(punct(',', Spacing::Alone));
        }
        out.push(Token::group(Delimiter::Parenthesis, list, Span::call_site()));
    }
    if let Some(ty) = &unit.return_type {
        out.push(punct('-', Spacing::Joint));
        out.push(punct('>', Spacing::Alone));
        out.extend(mauzi::token::clone_tokens(&ty.0));
    }
    let mut arms = Vec::new();
    for arm in &unit.body.arms {
        match &arm.pattern {
            ArmPattern::Underscore(span) => arms.push(Token::op('_', Spacing::Alone, *span)),
            ArmPattern::Lang(lang) => write_ident(lang, &mut arms),
            ArmPattern::WithRegion { lang, region } => {
                write_ident(lang, &mut arms);
                let mut inner = Vec::new();
                write_ident(region, &mut inner);
                arms.push(Token::group(Delimiter::Parenthesis, inner, Span::call_site()));
            }
        }
        arms.push(punct('=', Spacing::Joint));
        arms.push(punct('>', Spacing::Alone));
        let kind = match &arm.body.obj {
            ArmBody::Str(text) => TokenKind::Literal {
                text: proc_macro2::Literal::string(text).to_string(),
                string: Some(text.clone()),
            },
            ArmBody::Raw(tokens) => {
                TokenKind::Group(Delimiter::Brace, mauzi::token::clone_tokens(tokens))
            }
        };
        arms.push(Token { kind, span: arm.body.span });
        arms.push(punct(',', Spacing::Alone));
    }
    out.push(Token::group(Delimiter::Brace, arms, Span::call_site()));
}

fn write_items(modules: &[Mod], units: &[TransUnit]) -> (Vec<Token>, ModuleSources) {
    let mut tokens = Vec::new();
    let mut entries = Vec::new();
    for module in modules {
        tokens.push(word("mod"));
        write_ident(&module.name, &mut tokens);
        tokens.push(punct(';', Spacing::Alone));
        let (inner, sources) = write_items(&module.modules, &module.trans_units);
        entries.push(ModuleSource {
            name: module.name.name.clone(),
            resolution: Resolution::Found(ModuleFile { tokens: inner, sources }),
        });
    }
    for unit in units {
        write_unit(unit, &mut tokens);
    }
    (tokens, ModuleSources { entries })
}

fn write_dict(dict: &Dict) -> (Vec<Token>, ModuleSources) {
    let mut tokens = Vec::new();
    write_locale_def(&dict.locale_def, &mut tokens);
    let (items, sources) = write_items(&dict.modules, &dict.trans_units);
    tokens.extend(items);
    (tokens, sources)
}

#[test]
fn reading_what_was_written_gives_the_dictionary_back() {
    let odd = r#"
        enum Locale { De, En { Gb, Us }, Fr }
        unit a() -> Vec<(u8, u8)> { De => { (1, 2) } _ => { x } }
        unit b(x: &'static str, y: [u8; 2],) { En(Gb) => "a{x}", En(r) => { r } other => "\u{e4}\n" }
        unit c { }
    "#;
    for (source, sources) in [
        (FULL, ModuleSources::empty()),
        (WITH_MODULES, module_sources()),
        (odd, ModuleSources::empty()),
    ] {
        let dict = parse(&lex(source), &sources).unwrap();
        let (written, rewritten) = write_dict(&dict);
        let again = parse(&written, &rewritten).unwrap();
        assert_eq!(again, dict);
        // The written form is a fixed point.
        let (written_again, _) = write_dict(&again);
        assert_eq!(written_again, written);
    }
}

fn struct_names(text: &str) -> Vec<String> {
    let words: Vec<&str> = text.split_whitespace().collect();
    let mut names = Vec::new();
    for pair in words.windows(2) {
        if pair[0] == "struct" {
            names.push(pair[1].to_string());
        }
    }
    names
}

#[test]
fn module_names_that_run_into_each_other_get_types_of_their_own() {
    let unit = r#"unit x { De => "x" }"#;
    // `a` holding `b` beside `a__b`, and `a_` holding `b` beside `a` holding `_b`.
    for (first, inner_first, second, inner_second) in
        [("a", "b", "a__b", "c"), ("a_", "b", "a", "_b"), ("a", "b_1_c", "a_1_b", "c")]
    {
        let root = format!("enum Locale {{ De }} mod {}; mod {};", first, second);
        let sources = ModuleSources {
            entries: vec![
                module(first, &format!("mod {};", inner_first), vec![module(inner_first, unit, vec![])]),
                module(second, &format!("mod {};", inner_second), vec![module(inner_second, unit, vec![])]),
            ],
        };
        let dict = parse(&lex(&root), &sources).unwrap();
        let text = rendered(&gen(dict).unwrap());
        let mut names = struct_names(&text);
        assert_eq!(names.len(), 5, "{}", text);
        names.sort();
        names.dedup();
        assert_eq!(names.len(), 5, "{}", text);
        assert!(text.parse::<proc_macro2::TokenStream>().is_ok(), "{}", text);
    }
}

#[test]
fn type_names_hold_the_lengths_of_the_module_names() {
    let sources = ModuleSources {
        entries: vec![module(
            "a_module_with_a_long_name",
            "mod b;",
            vec![module("b", r#"unit x { De => "x" }"#, vec![])],
        )],
    };
    let dict = parse(&lex("enum Locale { De } mod a_module_with_a_long_name;"), &sources).unwrap();
    let text = rendered(&gen(dict).unwrap());
    assert_eq!(
        struct_names(&text),
        vec![
            "Dict_25_a_module_with_a_long_name_1_b".to_string(),
            "Dict_25_a_module_with_a_long_name".to_string(),
            "Dict".to_string(),
        ]
    );
}

#[test]
fn module_that_cannot_be_read_fails_only_if_it_is_declared() {
    let sources = ModuleSources {
        entries: vec![ModuleSource {
            name: "broken".to_string(),
            resolution: Resolution::Unreadable("permission denied".to_string()),
        }],
    };
    match parse(&lex("enum Locale { De } mod broken;"), &sources) {
        Err(ParseError::UnreadableModule { name, span, reason }) => {
            assert_eq!(name, "broken");
            assert!(span.is_some());
            assert_eq!(reason, "permission denied");
        }
        other => panic!("{:?}", other),
    }
    // A name that only looks like a declaration is never asked for.
    let tokens = lex(r#"enum Locale { De } unit x -> mod broken { De => { 1 } }"#);
    assert_eq!(declared_modules(&tokens), vec!["broken".to_string()]);
    assert!(parse(&tokens, &sources).is_ok());
    // An error that comes first in the description is reported first.
    match parse(&lex("enum Locale { De } fn x; mod broken;"), &sources) {
        Err(ParseError::UnknownItemKeyword { keyword, .. }) => assert_eq!(keyword, "fn"),
        other => panic!("{:?}", other),
    }
}

#[test]
fn module_may_be_declared_twice() {
    let tokens = lex("enum Locale { De } mod foo; unit x { } mod foo;");
    let sources = ModuleSources {
        entries: vec![module("foo", r#"unit y { De => "y" }"#, vec![])],
    };
    let dict = parse(&tokens, &sources).unwrap();
    assert_eq!(dict.modules.len(), 2);
    assert_eq!(dict.modules[0].name.name, "foo");
    assert_eq!(dict.modules[1].name.name, "foo");
    assert_eq!(dict.modules[0].trans_units, dict.modules[1].trans_units);
}
