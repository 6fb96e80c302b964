use mauzi::template::scan_template;

#[test]
fn placeholder_becomes_marker() {
    let t = scan_template("Hi {name}!");
    assert_eq!(t.skeleton, "Hi {}!");
    assert_eq!(t.format, "Hi {}!");
    assert_eq!(t.exprs, vec!["name".to_string()]);
}

#[test]
fn doubled_braces_are_literal() {
    let t = scan_template("{{literal}}");
    assert_eq!(t.skeleton, "{literal}");
    assert_eq!(t.format, "{{literal}}");
    assert!(t.exprs.is_empty());
}

#[test]
fn escaped_brace_followed_by_text() {
    let t = scan_template("a{{b");
    assert_eq!(t.skeleton, "a{b");
    assert!(t.exprs.is_empty());
}
