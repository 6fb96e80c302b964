//! The usage tree: which locales are used, and when a pattern comes too
//! late.
use mauzi::ast::{Ident, LocaleDef, LocaleLang};
use mauzi::error::CheckError;
use mauzi::token::Span;
use mauzi::usage::{PatternUsage, UsageNode};

fn ident(name: &str, at: usize) -> Ident {
    Ident::new(name.to_string(), Span { lo: at, hi: at + 1 })
}

fn locale() -> LocaleDef {
    LocaleDef {
        langs: vec![
            LocaleLang { name: ident("De", 1), regions: vec![] },
            LocaleLang { name: ident("En", 2), regions: vec![ident("Gb", 3), ident("Us", 4)] },
        ],
    }
}

fn leaf(used: bool) -> UsageNode {
    UsageNode { used, children: vec![], data: Ident::internal("x") }
}

fn node(used: bool, children: Vec<UsageNode>) -> UsageNode {
    UsageNode { used, children, data: Ident::internal("x") }
}

#[test]
fn node_without_children_is_used_by_its_flag() {
    assert!(leaf(true).is_used());
    assert!(!leaf(false).is_used());
}

#[test]
fn node_with_children_is_used_when_all_of_them_are() {
    assert!(node(false, vec![leaf(true), leaf(true)]).is_used());
    assert!(!node(false, vec![leaf(true), leaf(false)]).is_used());
    assert!(node(true, vec![leaf(false), leaf(false)]).is_used());
    assert!(node(false, vec![node(false, vec![leaf(true)]), leaf(true)]).is_used());
    assert!(!node(false, vec![node(false, vec![leaf(false)]), leaf(true)]).is_used());
}

#[test]
fn fresh_usage_is_not_exhausted() {
    assert!(!PatternUsage::new(&locale()).is_exhausted());
}

#[test]
fn languages_exhaust_the_usage() {
    let mut usage = PatternUsage::new(&locale());
    assert_eq!(usage.use_lang("De"), Ok(()));
    assert!(!usage.is_exhausted());
    assert_eq!(usage.use_lang("En"), Ok(()));
    assert!(usage.is_exhausted());
}

#[test]
fn regions_exhaust_their_language() {
    let mut usage = PatternUsage::new(&locale());
    assert_eq!(usage.use_region("En", "Gb"), Ok(()));
    assert_eq!(usage.use_region("En", "Us"), Ok(()));
    assert_eq!(
        usage.use_lang("En"),
        Err(CheckError::UnreachablePattern {
            pattern: "En".to_string(),
            span: Some(Span { lo: 2, hi: 3 }),
        })
    );
    assert!(!usage.is_exhausted());
    assert_eq!(usage.use_lang("De"), Ok(()));
    assert!(usage.is_exhausted());
}

#[test]
fn used_region_cannot_be_used_again() {
    let mut usage = PatternUsage::new(&locale());
    assert_eq!(usage.use_region("En", "Us"), Ok(()));
    assert_eq!(
        usage.use_region("En", "Us"),
        Err(CheckError::UnreachablePattern {
            pattern: "En(Us)".to_string(),
            span: Some(Span { lo: 4, hi: 5 }),
        })
    );
    assert_eq!(usage.use_region("En", "Gb"), Ok(()));
}

#[test]
fn region_of_used_language_cannot_be_used() {
    let mut usage = PatternUsage::new(&locale());
    assert_eq!(usage.use_lang("En"), Ok(()));
    assert!(usage.use_region("En", "Gb").is_err());
}

#[test]
fn wildcard_exhausts_the_usage_once() {
    let mut usage = PatternUsage::new(&locale());
    let at = Span { lo: 9, hi: 10 };
    assert_eq!(usage.use_wildcard(at, None), Ok(()));
    assert!(usage.is_exhausted());
    assert_eq!(
        usage.use_wildcard(at, None),
        Err(CheckError::UnreachablePattern { pattern: "_".to_string(), span: Some(at) })
    );
    assert_eq!(
        usage.use_wildcard(at, Some("rest")),
        Err(CheckError::UnreachablePattern { pattern: "rest".to_string(), span: Some(at) })
    );
    assert!(usage.use_lang("De").is_err());
    assert!(usage.use_region("En", "Gb").is_err());
}
