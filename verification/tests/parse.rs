//! The parser and the token cursor: what is read, and each way in which a
//! description can be malformed.
use literalext::LiteralExt;
use mauzi::ast::{ArmBody, ArmPattern, Ident};
use mauzi::cursor::Cursor;
use mauzi::error::{Expected, ParseError};
use mauzi::parse::{
    parse, parse_arm_body, parse_arm_pattern, parse_items, parse_locale_def, parse_locale_variant,
    parse_module, parse_trans_unit, parse_type, parse_unit_body, parse_unit_params,
};
use mauzi::sources::ModuleSources;
use mauzi::token::{Delimiter, Spacing, Span, Token, TokenKind};

fn convert(stream: proc_macro2::TokenStream, next: &mut usize) -> Vec<Token> {
    let mut out = Vec::new();
    for tree in stream {
        let lo = *next;
        *next += 1;
        let kind = match tree.kind {
            proc_macro2::TokenNode::Group(delimiter, inner) => {
                let delimiter = match delimiter {
                    proc_macro2::Delimiter::Parenthesis => Delimiter::Parenthesis,
                    proc_macro2::Delimiter::Brace => Delimiter::Brace,
                    proc_macro2::Delimiter::Bracket => Delimiter::Bracket,
                    proc_macro2::Delimiter::None => Delimiter::Invisible,
                };
                TokenKind::Group(delimiter, convert(inner, next))
            }
            proc_macro2::TokenNode::Term(term) => TokenKind::Term(term.as_str().to_string()),
            proc_macro2::TokenNode::Op(glyph, spacing) => TokenKind::Op(
                glyph,
                match spacing {
                    proc_macro2::Spacing::Alone => Spacing::Alone,
                    proc_macro2::Spacing::Joint => Spacing::Joint,
                },
            ),
            proc_macro2::TokenNode::Literal(literal) => TokenKind::Literal {
                text: literal.to_string(),
                string: literal.parse_string(),
            },
        };
        out.push(Token { kind, span: Span { lo, hi: *next } });
    }
    out
}

fn lex(source: &str) -> Vec<Token> {
    let stream: proc_macro2::TokenStream = source.parse().expect("the test's source lexes");
    convert(stream, &mut 1)
}

fn parse_error(source: &str) -> ParseError {
    parse(&lex(source), &ModuleSources::empty()).unwrap_err()
}

fn unexpected(source: &str) -> (Expected, TokenKind) {
    match parse_error(source) {
        ParseError::UnexpectedToken { expected, found } => (expected, found.kind),
        other => panic!("{:?}", other),
    }
}

fn term(text: &str) -> TokenKind {
    TokenKind::Term(text.to_string())
}

#[test]
fn cursor_walks_the_stream() {
    let tokens = lex("a , (b) \"c\" 7");
    let mut cursor = Cursor::new(&tokens);
    assert!(cursor.is_not_exhausted());
    assert_eq!(cursor.peek_curr().unwrap().kind, term("a"));
    assert_eq!(cursor.eat_term().unwrap(), Ident::new("a".to_string(), Span { lo: 1, hi: 2 }));
    assert_eq!(cursor.eat_op_if(','), Ok((Spacing::Alone, Span { lo: 2, hi: 3 })));
    let group = cursor.eat_group().unwrap();
    assert_eq!(group.delimiter, Delimiter::Parenthesis);
    assert_eq!(group.tokens.len(), 1);
    assert_eq!(group.tokens[0].kind, term("b"));
    let lit = cursor.eat_literal().unwrap();
    assert_eq!(lit.text, "\"c\"");
    assert_eq!(lit.string, Some("c".to_string()));
    let number = cursor.eat_literal().unwrap();
    assert_eq!(number.text, "7");
    assert_eq!(number.string, None);
    assert!(cursor.is_exhausted());
    assert_eq!(cursor.peek_curr().unwrap_err(), ParseError::EndOfInput);
    assert_eq!(cursor.eat_curr().unwrap_err(), ParseError::EndOfInput);
    assert_eq!(cursor.eat_term().unwrap_err(), ParseError::EndOfInput);
    assert_eq!(cursor.eat_group().unwrap_err(), ParseError::EndOfInput);
    assert_eq!(cursor.eat_literal().unwrap_err(), ParseError::EndOfInput);
    assert_eq!(cursor.eat_op().unwrap_err(), ParseError::EndOfInput);
    assert_eq!(cursor.eat_op_if(',').unwrap_err(), ParseError::EndOfInput);
    assert_eq!(cursor.eat_keyword("x").unwrap_err(), ParseError::EndOfInput);
    cursor.bump();
    assert!(cursor.is_exhausted());
}

#[test]
fn cursor_takes_a_token_only_if_it_has_the_shape() {
    let tokens = lex("a => {}");
    let mut cursor = Cursor::new(&tokens);
    assert!(matches!(
        cursor.eat_group(),
        Err(ParseError::UnexpectedToken { expected: Expected::Group, .. })
    ));
    assert!(matches!(
        cursor.eat_literal(),
        Err(ParseError::UnexpectedToken { expected: Expected::Literal, .. })
    ));
    assert!(matches!(
        cursor.eat_op_if('='),
        Err(ParseError::UnexpectedToken { expected: Expected::Operator('='), .. })
    ));
    assert!(matches!(
        cursor.eat_keyword("b"),
        Err(ParseError::UnexpectedToken { expected: Expected::Keyword(word), .. }) if word == "b"
    ));
    // Nothing was consumed so far.
    assert_eq!(cursor.eat_keyword("a"), Ok(()));
    assert!(matches!(
        cursor.eat_term(),
        Err(ParseError::UnexpectedToken { expected: Expected::Identifier, .. })
    ));
    assert!(matches!(cursor.eat_op_if('>'), Err(ParseError::UnexpectedToken { .. })));
    // The spacing tells `=>` from `=` and `>`.
    assert_eq!(cursor.eat_op(), Ok(('=', Spacing::Joint)));
    assert_eq!(cursor.eat_op(), Ok(('>', Spacing::Alone)));
    assert!(matches!(
        cursor.eat_group_delimited_by(Delimiter::Parenthesis),
        Err(ParseError::UnexpectedToken {
            expected: Expected::GroupDelimitedBy(Delimiter::Parenthesis),
            ..
        })
    ));
    assert!(cursor.eat_group_delimited_by(Delimiter::Brace).is_ok());
    assert!(cursor.is_exhausted());
}

#[test]
fn group_has_a_cursor_of_its_own() {
    let tokens = lex("(a b) c");
    let mut outer = Cursor::new(&tokens);
    let group = outer.eat_group().unwrap();
    let mut inner = Cursor::new(group.tokens);
    assert_eq!(inner.eat_term().unwrap().name, "a");
    assert_eq!(outer.eat_term().unwrap().name, "c");
    assert_eq!(inner.eat_term().unwrap().name, "b");
    assert!(inner.is_exhausted() && outer.is_exhausted());
}

#[test]
fn locale_definition_with_commas() {
    for source in ["enum Locale { De, En { Gb, Us }, }", "enum Locale { De, En { Gb, Us } }"] {
        let tokens = lex(source);
        let locale = parse_locale_def(&mut Cursor::new(&tokens)).unwrap();
        assert_eq!(locale.langs.len(), 2, "{}", source);
        assert!(!locale.langs[0].has_regions());
        assert!(locale.langs[1].has_regions());
        assert!(locale.langs[1].contains_region("Us"));
        assert!(!locale.langs[1].contains_region("De"));
        assert_eq!(locale.get_lang("En").unwrap().regions.len(), 2);
        assert!(locale.get_lang("Fr").is_none());
        assert_eq!(locale.lang_index("En"), Some(1));
        assert_eq!(locale.name().name, "Locale");
    }
}

#[test]
fn languages_and_regions_need_commas_between_them() {
    assert!(matches!(unexpected("enum Locale { De En }"), (Expected::Operator(','), _)));
    assert!(matches!(unexpected("enum Locale { En { Gb Us } }"), (Expected::Operator(','), _)));
    assert!(matches!(unexpected("enum Locale { De,, En }"), (Expected::Identifier, _)));
    assert!(matches!(unexpected("enum Locale { , De }"), (Expected::Identifier, _)));
    assert!(matches!(unexpected("enum Locale { En { Gb } De }"), (Expected::Operator(','), _)));
}

#[test]
fn locale_definition_declares_at_least_one_language() {
    assert_eq!(parse_error("enum Locale { }"), ParseError::EndOfInput);
    assert_eq!(parse_error("enum Locale { En { } }"), ParseError::EndOfInput);
    let tokens = lex("En { } , De");
    assert_eq!(
        parse_locale_variant(&mut Cursor::new(&tokens)).unwrap_err(),
        ParseError::EndOfInput
    );
}

#[test]
fn language_keeps_what_follows_it() {
    let tokens = lex("En { Gb, } , De");
    let mut cursor = Cursor::new(&tokens);
    let lang = parse_locale_variant(&mut cursor).unwrap();
    assert_eq!(lang.name.name, "En");
    assert_eq!(lang.regions.len(), 1);
    assert!(cursor.eat_op_if(',').is_ok());
    let lang = parse_locale_variant(&mut cursor).unwrap();
    assert!(lang.regions.is_empty());
    assert!(cursor.is_exhausted());
}

#[test]
fn locale_definition_must_come_first() {
    assert_eq!(parse_error(""), ParseError::EndOfInput);
    assert_eq!(parse_error("enum"), ParseError::EndOfInput);
    assert_eq!(parse_error("enum Locale"), ParseError::EndOfInput);
    assert_eq!(unexpected("struct Locale {}"), (Expected::Keyword("enum".to_string()), term("struct")));
    assert_eq!(unexpected("enum Loc {}"), (Expected::Keyword("Locale".to_string()), term("Loc")));
    assert!(matches!(
        unexpected("enum Locale ( De )"),
        (Expected::GroupDelimitedBy(Delimiter::Brace), TokenKind::Group(Delimiter::Parenthesis, _))
    ));
    assert!(matches!(unexpected("enum Locale De"), (Expected::Group, _)));
    assert!(matches!(unexpected("enum Locale { 7 }"), (Expected::Identifier, _)));
    assert!(matches!(unexpected("enum Locale { En { 7 } }"), (Expected::Identifier, _)));
}

#[test]
fn item_must_start_with_unit_or_mod() {
    match parse_error("enum Locale { De } fn x { }") {
        ParseError::UnknownItemKeyword { keyword, span } => {
            assert_eq!(keyword, "fn");
            assert!(span.is_some());
        }
        other => panic!("{:?}", other),
    }
    assert!(matches!(unexpected("enum Locale { De } { }"), (Expected::Identifier, _)));
}

#[test]
fn unit_needs_a_name_and_a_block() {
    assert_eq!(parse_error("enum Locale { De } unit"), ParseError::EndOfInput);
    assert_eq!(parse_error("enum Locale { De } unit x"), ParseError::EndOfInput);
    assert_eq!(parse_error("enum Locale { De } unit x (a: u8)"), ParseError::EndOfInput);
    assert_eq!(parse_error("enum Locale { De } unit x -> u8"), ParseError::EndOfInput);
    assert!(matches!(unexpected("enum Locale { De } unit 7 { }"), (Expected::Identifier, _)));
    assert!(matches!(unexpected("enum Locale { De } unit x y"), (Expected::ParamsArrowOrBody, _)));
    assert!(matches!(unexpected("enum Locale { De } unit x [ ]"), (Expected::ParamsArrowOrBody, _)));
    assert!(matches!(unexpected("enum Locale { De } unit x (a: u8) y"), (Expected::ArrowOrBody, _)));
    assert!(matches!(unexpected("enum Locale { De } unit x - > u8 { }"), (Expected::Arrow, _)));
    assert!(matches!(unexpected("enum Locale { De } unit x -< u8 { }"), (Expected::Operator('>'), _)));
    // A type ends at a comma, so the block is missing here.
    assert!(matches!(unexpected("enum Locale { De } unit x -> u8 , { }"), (Expected::Body, _)));
}

#[test]
fn parameters_are_names_with_types() {
    let tokens = lex("(name: &str, count: Vec<u32>, f: fn(u8) -> u8,)");
    let group = match &tokens[0].kind {
        TokenKind::Group(_, inner) => inner,
        other => panic!("{:?}", other),
    };
    let params = parse_unit_params(group).unwrap();
    let names: Vec<&str> = params.iter().map(|p| p.name.name.as_str()).collect();
    assert_eq!(names, vec!["name", "count", "f"]);
    assert_eq!(params[0].ty.0.len(), 2);
    assert_eq!(params[1].ty.0.len(), 4);
    assert_eq!(params[2].ty.0.len(), 5);
    assert_eq!(parse_unit_params(&Vec::new()), Ok(vec![]));
    assert!(matches!(
        parse_unit_params(&lex("a b")),
        Err(ParseError::UnexpectedToken { expected: Expected::Operator(':'), .. })
    ));
    assert!(matches!(
        parse_unit_params(&lex("a: u8 { }")),
        Err(ParseError::UnexpectedToken { expected: Expected::Operator(','), .. })
    ));
    assert_eq!(parse_unit_params(&lex("a")), Err(ParseError::EndOfInput));
}

#[test]
fn type_is_every_token_up_to_a_comma_or_a_block() {
    let tokens = lex("Option<(u8, u8)> , rest");
    let mut cursor = Cursor::new(&tokens);
    let ty = parse_type(&mut cursor).unwrap();
    assert_eq!(ty.0.len(), 4);
    assert!(cursor.eat_op_if(',').is_ok());

    let tokens = lex("[u8; 4] { }");
    let mut cursor = Cursor::new(&tokens);
    assert_eq!(parse_type(&mut cursor).unwrap().0.len(), 1);
    assert!(cursor.eat_group_delimited_by(Delimiter::Brace).is_ok());

    let tokens = lex(", x");
    let mut cursor = Cursor::new(&tokens);
    assert!(parse_type(&mut cursor).unwrap().0.is_empty());

    let tokens = lex("a b");
    let mut cursor = Cursor::new(&tokens);
    assert_eq!(parse_type(&mut cursor).unwrap().0.len(), 2);
    assert!(cursor.is_exhausted());
}

#[test]
fn empty_parameter_list_is_not_no_parameter_list() {
    let tokens = lex("x() { } y { }");
    let mut cursor = Cursor::new(&tokens);
    let x = parse_trans_unit(&mut cursor).unwrap();
    assert_eq!(x.params, Some(vec![]));
    let y = parse_trans_unit(&mut cursor).unwrap();
    assert_eq!(y.params, None);
    assert!(y.body.arms.is_empty());
}

#[test]
fn arms_need_commas_except_after_blocks_and_at_the_end() {
    let body = |source: &str| parse_unit_body(&lex(source));
    assert_eq!(body(r#"De => "a", En => "b","#).unwrap().arms.len(), 2);
    assert_eq!(body(r#"De => "a", En => "b""#).unwrap().arms.len(), 2);
    assert_eq!(body(r#"De => { a } En => { b } _ => "c""#).unwrap().arms.len(), 3);
    assert_eq!(body(r#"De => { a }, En => { b },"#).unwrap().arms.len(), 2);
    assert!(matches!(
        body(r#"De => "a" En => "b""#),
        Err(ParseError::UnexpectedToken { expected: Expected::Operator(','), .. })
    ));
    assert!(matches!(
        body(r#"De = > "a""#),
        Err(ParseError::UnexpectedToken { expected: Expected::FatArrow, .. })
    ));
    assert!(matches!(
        body(r#"De =< "a""#),
        Err(ParseError::UnexpectedToken { expected: Expected::Operator('>'), .. })
    ));
    assert!(matches!(
        body(r#"De "a""#),
        Err(ParseError::UnexpectedToken { expected: Expected::Operator('='), .. })
    ));
    assert_eq!(body("De =>").unwrap_err(), ParseError::EndOfInput);
    assert_eq!(body("De").unwrap_err(), ParseError::EndOfInput);
}

#[test]
fn pattern_with_region_holds_exactly_one_name() {
    let pattern = |source: &str| {
        let tokens = lex(source);
        parse_arm_pattern(&mut Cursor::new(&tokens))
    };
    assert!(matches!(pattern("_ =>"), Ok(ArmPattern::Underscore(_))));
    assert!(matches!(pattern("En =>"), Ok(ArmPattern::Lang(_))));
    assert!(matches!(pattern("En(Gb) =>"), Ok(ArmPattern::WithRegion { .. })));
    assert!(matches!(
        pattern("En(Gb, Us) =>"),
        Err(ParseError::UnexpectedToken { expected: Expected::EndOfGroup, .. })
    ));
    assert_eq!(pattern("En() =>").unwrap_err(), ParseError::EndOfInput);
    assert!(matches!(
        pattern("En[Gb] =>"),
        Err(ParseError::UnexpectedToken {
            expected: Expected::GroupDelimitedBy(Delimiter::Parenthesis),
            ..
        })
    ));
    assert!(matches!(
        pattern("7 =>"),
        Err(ParseError::UnexpectedToken { expected: Expected::Identifier, .. })
    ));
}

#[test]
fn body_is_a_string_literal_or_a_block() {
    let body = |source: &str| {
        let tokens = lex(source);
        parse_arm_body(&mut Cursor::new(&tokens)).map(|b| b.obj)
    };
    assert_eq!(body(r#""text""#), Ok(ArmBody::Str("text".to_string())));
    assert_eq!(body(r##"r#"raw "text""#"##), Ok(ArmBody::Str("raw \"text\"".to_string())));
    assert!(matches!(body("{ code }"), Ok(ArmBody::Raw(tokens)) if tokens.len() == 1));
    assert!(matches!(
        body("7"),
        Err(ParseError::UnexpectedToken { expected: Expected::StringLiteral, .. })
    ));
    assert!(matches!(
        body("name"),
        Err(ParseError::UnexpectedToken { expected: Expected::Literal, .. })
    ));
    assert!(matches!(
        body("( code )"),
        Err(ParseError::UnexpectedToken {
            expected: Expected::GroupDelimitedBy(Delimiter::Brace),
            ..
        })
    ));
    assert_eq!(body("").unwrap_err(), ParseError::EndOfInput);
}

#[test]
fn body_keeps_its_place() {
    let tokens = lex(r#"De => "a""#);
    let body = parse_unit_body(&tokens).unwrap();
    assert_eq!(body.arms[0].body.span, tokens[3].span);
    assert_eq!(body.arms[0].pattern.span(), Some(tokens[0].span));
}

#[test]
fn module_declaration_needs_a_name_and_a_semicolon() {
    let sources = ModuleSources::empty();
    let tokens = lex("7 ;");
    assert!(matches!(
        parse_module(&mut Cursor::new(&tokens), &sources),
        Err(ParseError::UnexpectedToken { expected: Expected::Identifier, .. })
    ));
    let tokens = lex("foo bar");
    assert!(matches!(
        parse_module(&mut Cursor::new(&tokens), &sources),
        Err(ParseError::UnexpectedToken { expected: Expected::Operator(';'), .. })
    ));
    let tokens = lex("foo");
    assert_eq!(
        parse_module(&mut Cursor::new(&tokens), &sources).unwrap_err(),
        ParseError::EndOfInput
    );
}

#[test]
fn items_keep_their_order_within_their_kind() {
    let tokens = lex("unit a { } unit b { } unit c { }");
    let (modules, units) = parse_items(&mut Cursor::new(&tokens), &ModuleSources::empty()).unwrap();
    assert!(modules.is_empty());
    let names: Vec<&str> = units.iter().map(|u| u.name.name.as_str()).collect();
    assert_eq!(names, vec!["a", "b", "c"]);
}
