//! The checker on small dictionaries: which arms are reachable, which units
//! are exhaustive, and which errors come out.
use literalext::LiteralExt;
use mauzi::ast::{ArmPattern, Dict, Ident, LocaleDef, LocaleLang};
use mauzi::check::{check, check_arm, check_unit, custom_return_implies_raw_body, resolve, Matcher};
use mauzi::error::CheckError;
use mauzi::parse::parse;
use mauzi::sources::ModuleSources;
use mauzi::token::{Delimiter, Spacing, Span, Token, TokenKind};
use mauzi::usage::PatternUsage;

fn convert(stream: proc_macro2::TokenStream, next: &mut usize) -> Vec<Token> {
    let mut out = Vec::new();
    for tree in stream {
        let lo = *next;
        *next += 1;
        let kind = match tree.kind {
            proc_macro2::TokenNode::Group(delimiter, inner) => {
                let delimiter = match delimiter {
                    proc_macro2::Delimiter::Parenthesis => Delimiter::Parenthesis,
                    proc_macro2::Delimiter::Brace => Delimiter::Brace,
                    proc_macro2::Delimiter::Bracket => Delimiter::Bracket,
                    proc_macro2::Delimiter::None => Delimiter::Invisible,
                };
                TokenKind::Group(delimiter, convert(inner, next))
            }
            proc_macro2::TokenNode::Term(term) => TokenKind::Term(term.as_str().to_string()),
            proc_macro2::TokenNode::Op(glyph, spacing) => TokenKind::Op(
                glyph,
                match spacing {
                    proc_macro2::Spacing::Alone => Spacing::Alone,
                    proc_macro2::Spacing::Joint => Spacing::Joint,
                },
            ),
            proc_macro2::TokenNode::Literal(literal) => TokenKind::Literal {
                text: literal.to_string(),
                string: literal.parse_string(),
            },
        };
        out.push(Token { kind, span: Span { lo, hi: *next } });
    }
    out
}

fn lex(source: &str) -> Vec<Token> {
    let stream: proc_macro2::TokenStream = source.parse().expect("the test's source lexes");
    convert(stream, &mut 1)
}

fn dict(source: &str) -> Dict {
    parse(&lex(source), &ModuleSources::empty()).unwrap()
}

fn exhaustive(source: &str) -> Result<bool, CheckError> {
    let dict = dict(source);
    check_unit(&dict.trans_units[0], &dict.locale_def)
}

fn locale(langs: &[(&str, &[&str])]) -> LocaleDef {
    LocaleDef {
        langs: langs
            .iter()
            .map(|(name, regions)| LocaleLang {
                name: Ident::internal(name),
                regions: regions.iter().map(|r| Ident::internal(r)).collect(),
            })
            .collect(),
    }
}

fn lang(name: &str) -> ArmPattern {
    ArmPattern::Lang(Ident::internal(name))
}

fn with_region(lang: &str, region: &str) -> ArmPattern {
    ArmPattern::WithRegion { lang: Ident::internal(lang), region: Ident::internal(region) }
}

#[test]
fn both_languages_are_exhaustive() {
    assert_eq!(
        exhaustive(r#"enum Locale { En, De } unit x { En => "hi", De => "hallo" }"#),
        Ok(true)
    );
}

#[test]
fn one_language_of_two_is_not_exhaustive() {
    assert_eq!(exhaustive(r#"enum Locale { En, De } unit x { En => "hi" }"#), Ok(false));
}

#[test]
fn all_regions_are_exhaustive() {
    assert_eq!(
        exhaustive(r#"enum Locale { En { Gb, Us } } unit x { En(Gb) => "a", En(Us) => "b" }"#),
        Ok(true)
    );
}

#[test]
fn region_and_wildcard_are_exhaustive() {
    assert_eq!(
        exhaustive(r#"enum Locale { En { Gb, Us } } unit x { En(Gb) => "a", _ => "b" }"#),
        Ok(true)
    );
}

#[test]
fn one_region_of_two_is_not_exhaustive() {
    assert_eq!(
        exhaustive(r#"enum Locale { En { Gb, Us } } unit x { En(Gb) => "a" }"#),
        Ok(false)
    );
}

#[test]
fn region_then_language_covers_the_rest_of_the_language() {
    assert_eq!(
        exhaustive(r#"enum Locale { En { Gb, Us }, De } unit x { En(Gb) => "a", En => "b" }"#),
        Ok(false)
    );
    assert_eq!(
        exhaustive(
            r#"enum Locale { En { Gb, Us }, De } unit x { En(Gb) => "a", En => "b", De => "c" }"#
        ),
        Ok(true)
    );
}

#[test]
fn unit_without_arms_is_not_exhaustive() {
    assert_eq!(exhaustive(r#"enum Locale { En } unit x { }"#), Ok(false));
}

#[test]
fn same_language_twice_is_unreachable() {
    let dict = dict(r#"enum Locale { En, De } unit x { En => "a", En => "b" }"#);
    assert_eq!(
        check(&dict),
        Err(CheckError::UnreachablePattern {
            pattern: "En".to_string(),
            span: dict.locale_def.langs[0].name.span,
        })
    );
}

#[test]
fn same_region_twice_is_unreachable() {
    let dict = dict(r#"enum Locale { En { Gb, Us } } unit x { En(Gb) => "a", En(Gb) => "b" }"#);
    assert_eq!(
        check(&dict),
        Err(CheckError::UnreachablePattern {
            pattern: "En(Gb)".to_string(),
            span: dict.locale_def.langs[0].regions[0].span,
        })
    );
}

#[test]
fn region_after_its_language_is_unreachable() {
    let dict = dict(r#"enum Locale { En { Gb, Us }, De } unit x { En => "a", En(Gb) => "b" }"#);
    assert!(matches!(
        check(&dict),
        Err(CheckError::UnreachablePattern { pattern, .. }) if pattern == "En(Gb)"
    ));
}

#[test]
fn language_after_all_its_regions_is_unreachable() {
    let dict = dict(
        r#"enum Locale { En { Gb, Us }, De } unit x { En(Gb) => "a", En(Us) => "b", En => "c" }"#,
    );
    assert!(matches!(
        check(&dict),
        Err(CheckError::UnreachablePattern { pattern, .. }) if pattern == "En"
    ));
}

#[test]
fn anything_after_a_wildcard_is_unreachable() {
    for arm in ["En => \"b\"", "En(Gb) => \"b\"", "_ => \"b\"", "other => \"b\""] {
        let source = format!("enum Locale {{ En {{ Gb, Us }}, De }} unit x {{ _ => \"a\", {} }}", arm);
        let dict = dict(&source);
        assert!(
            matches!(check(&dict), Err(CheckError::UnreachablePattern { .. })),
            "{}",
            source
        );
    }
}

#[test]
fn wildcard_after_full_coverage_is_unreachable() {
    let dict = dict(r#"enum Locale { En, De } unit x { En => "a", De => "b", _ => "c" }"#);
    let underscore = match &dict.trans_units[0].body.arms[2].pattern {
        ArmPattern::Underscore(span) => *span,
        other => panic!("{:?}", other),
    };
    assert_eq!(
        check(&dict),
        Err(CheckError::UnreachablePattern { pattern: "_".to_string(), span: Some(underscore) })
    );
}

#[test]
fn binding_after_full_coverage_is_unreachable() {
    let dict = dict(r#"enum Locale { En } unit x { En => "a", rest => { f(rest) } }"#);
    assert!(matches!(
        check(&dict),
        Err(CheckError::UnreachablePattern { pattern, .. }) if pattern == "rest"
    ));
}

#[test]
fn region_of_undeclared_language_is_unknown_language() {
    let dict = dict(r#"enum Locale { En { Gb } } unit x { Fr(Ca) => "a" }"#);
    let fr = match &dict.trans_units[0].body.arms[0].pattern {
        ArmPattern::WithRegion { lang, .. } => lang.span,
        other => panic!("{:?}", other),
    };
    assert_eq!(check(&dict), Err(CheckError::UnknownLanguage { name: "Fr".to_string(), span: fr }));
}

#[test]
fn unknown_language_wins_whatever_was_matched_before() {
    // Even after a wildcard, which makes every other arm unreachable.
    let dict = dict(r#"enum Locale { En { Gb } } unit x { _ => "a", Fr(Ca) => "b" }"#);
    assert!(matches!(
        check(&dict),
        Err(CheckError::UnknownLanguage { name, .. }) if name == "Fr"
    ));
    let locale = locale(&[("En", &["Gb"])]);
    let mut usage = PatternUsage::new(&locale);
    usage.use_wildcard(Span { lo: 0, hi: 1 }, None).unwrap();
    assert!(matches!(
        check_arm(&with_region("Fr", "Ca"), &mut usage, &locale),
        Err(CheckError::UnknownLanguage { .. })
    ));
}

#[test]
fn undeclared_language_alone_is_a_binding() {
    assert_eq!(exhaustive(r#"enum Locale { En, De } unit x { Fr => { f(Fr) } }"#), Ok(true));
}

#[test]
fn undeclared_region_is_a_binding_for_the_whole_language() {
    assert_eq!(
        exhaustive(r#"enum Locale { En { Gb, Us } } unit x { En(r) => { f(r) } }"#),
        Ok(true)
    );
}

#[test]
fn patterns_resolve_against_the_locale_definition() {
    let locale = locale(&[("De", &[]), ("En", &["Gb", "Us"])]);
    assert_eq!(resolve(&ArmPattern::Underscore(Span { lo: 0, hi: 1 }), &locale), Ok(Matcher::Wildcard));
    assert_eq!(resolve(&lang("En"), &locale), Ok(Matcher::Lang { lang: 1 }));
    assert_eq!(resolve(&lang("en"), &locale), Ok(Matcher::Binding));
    assert_eq!(resolve(&with_region("En", "Us"), &locale), Ok(Matcher::Region { lang: 1, region: 1 }));
    assert_eq!(resolve(&with_region("En", "x"), &locale), Ok(Matcher::RegionBinding { lang: 1 }));
    assert_eq!(resolve(&with_region("De", "x"), &locale), Ok(Matcher::RegionBinding { lang: 0 }));
    assert_eq!(
        resolve(&with_region("Fr", "Ca"), &locale),
        Err(CheckError::UnknownLanguage { name: "Fr".to_string(), span: None })
    );
}

#[test]
fn first_of_two_languages_of_one_name_is_the_one_that_is_meant() {
    let locale = locale(&[("En", &[]), ("En", &[])]);
    assert_eq!(resolve(&lang("En"), &locale), Ok(Matcher::Lang { lang: 0 }));
    let mut usage = PatternUsage::new(&locale);
    assert!(check_arm(&lang("En"), &mut usage, &locale).is_ok());
    // The second language of that name is left to a wildcard.
    assert!(!usage.is_exhausted());
    assert!(check_arm(&lang("En"), &mut usage, &locale).is_err());
    assert!(check_arm(&lang("rest"), &mut usage, &locale).is_ok());
    assert!(usage.is_exhausted());
}

#[test]
fn empty_locale_definition_is_exhausted_by_a_wildcard_only() {
    let locale = locale(&[]);
    let mut usage = PatternUsage::new(&locale);
    assert!(!usage.is_exhausted());
    assert_eq!(
        check_arm(&ArmPattern::Underscore(Span { lo: 0, hi: 1 }), &mut usage, &locale),
        Ok(Matcher::Wildcard)
    );
    assert!(usage.is_exhausted());
}

#[test]
fn failed_arm_leaves_the_usage_as_it_was() {
    let locale = locale(&[("En", &["Gb", "Us"]), ("De", &[])]);
    let mut usage = PatternUsage::new(&locale);
    assert!(check_arm(&with_region("En", "Gb"), &mut usage, &locale).is_ok());
    assert!(check_arm(&with_region("En", "Gb"), &mut usage, &locale).is_err());
    assert!(check_arm(&with_region("Fr", "Gb"), &mut usage, &locale).is_err());
    assert!(check_arm(&with_region("En", "Us"), &mut usage, &locale).is_ok());
    assert!(check_arm(&lang("De"), &mut usage, &locale).is_ok());
    assert!(usage.is_exhausted());
}

#[test]
fn string_body_rule_names_the_first_offending_arm() {
    let dict = dict(
        r#"enum Locale { De, En }
           unit fine { De => "text" }
           unit typed -> Html { De => { a }, En(x) => "text", _ => "more" }"#,
    );
    let body_span = dict.trans_units[1].body.arms[1].body.span;
    let expected = CheckError::CustomReturnRequiresRawBody {
        unit: "typed".to_string(),
        arm: "En(x)".to_string(),
        body_span,
    };
    assert_eq!(custom_return_implies_raw_body(&dict), Err(expected));
}

#[test]
fn string_body_rule_comes_before_the_arms() {
    // The first unit has an unreachable arm, the second breaks the
    // string-body rule: the rule is checked over all units first.
    let dict = dict(
        r#"enum Locale { De }
           unit first { De => "a", De => "b" }
           unit second -> u8 { De => "text" }"#,
    );
    assert!(matches!(check(&dict), Err(CheckError::CustomReturnRequiresRawBody { .. })));
}

#[test]
fn units_without_return_type_may_mix_bodies() {
    let dict = dict(r#"enum Locale { De, En } unit x { De => "text", En => { code() } }"#);
    assert_eq!(custom_return_implies_raw_body(&dict), Ok(()));
    assert_eq!(check(&dict), Ok(()));
}

// The locales of a locale definition, and which of them a pattern matches,
// computed the slow way.

fn values(locale: &LocaleDef) -> Vec<(usize, Option<usize>)> {
    let mut all = Vec::new();
    for (l, lang) in locale.langs.iter().enumerate() {
        if lang.regions.is_empty() {
            all.push((l, None));
        }
        for r in 0..lang.regions.len() {
            all.push((l, Some(r)));
        }
    }
    all
}

fn matches_value(locale: &LocaleDef, pattern: &ArmPattern, value: (usize, Option<usize>)) -> bool {
    let first = |name: &str| locale.langs.iter().position(|l| l.name.name == name);
    match pattern {
        ArmPattern::Underscore(_) => true,
        ArmPattern::Lang(name) => match first(&name.name) {
            Some(l) => value.0 == l,
            None => true,
        },
        ArmPattern::WithRegion { lang, region } => match first(&lang.name) {
            None => false,
            Some(l) => {
                let declared =
                    locale.langs[l].regions.iter().position(|r| r.name == region.name);
                match declared {
                    Some(r) => value == (l, Some(r)),
                    None => value.0 == l,
                }
            }
        },
    }
}

#[test]
fn checker_agrees_with_the_locales_that_patterns_match() {
    let locale = locale(&[("De", &[]), ("En", &["Gb", "Us"]), ("Fr", &["Ca"])]);
    let candidates = || {
        vec![
            ArmPattern::Underscore(Span { lo: 0, hi: 1 }),
            lang("De"),
            lang("En"),
            lang("Fr"),
            lang("rest"),
            with_region("En", "Gb"),
            with_region("En", "Us"),
            with_region("En", "r"),
            with_region("Fr", "Ca"),
            with_region("De", "r"),
        ]
    };
    let n = candidates().len();
    let mut sequences = 0;
    // Every sequence of up to four of the patterns.
    for length in 0..=4u32 {
        for code in 0..n.pow(length) {
            let mut arms = Vec::new();
            let mut rest = code;
            for _ in 0..length {
                arms.push(candidates().swap_remove(rest % n));
                rest /= n;
            }
            // By the locales: each arm must match one that no earlier arm matches.
            let mut covered: Vec<(usize, Option<usize>)> = Vec::new();
            let mut reachable = true;
            for arm in &arms {
                let fresh: Vec<_> = values(&locale)
                    .into_iter()
                    .filter(|v| matches_value(&locale, arm, *v) && !covered.contains(v))
                    .collect();
                if fresh.is_empty() {
                    reachable = false;
                    break;
                }
                covered.extend(fresh);
            }
            let exhaustive = covered.len() == values(&locale).len();
            // By the checker.
            let mut usage = PatternUsage::new(&locale);
            let accepted = arms.iter().all(|arm| check_arm(arm, &mut usage, &locale).is_ok());
            assert_eq!(accepted, reachable, "{:?}", arms);
            if accepted {
                assert_eq!(usage.is_exhausted(), exhaustive, "{:?}", arms);
            }
            sequences += 1;
        }
    }
    assert_eq!(sequences, 1 + 10 + 100 + 1000 + 10000);
}
