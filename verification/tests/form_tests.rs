use novel_boom_core::error::Error;
use novel_boom_core::form_data::parse_form_template;

#[test]
fn parses_common_templates() {
    let fields = parse_form_template("{searchkey: %s}", "诡秘").unwrap();
    assert_eq!(fields, vec![("searchkey".into(), "诡秘".into())]);

    let fields = parse_form_template("{searchkey: %s, searchtype: all}", "测试").unwrap();
    assert_eq!(
        fields,
        vec![
            ("searchkey".into(), "测试".into()),
            ("searchtype".into(), "all".into()),
        ]
    );

    let fields = parse_form_template("{type: articlename, s: %s}", "abc").unwrap();
    assert_eq!(fields[0].1, "articlename");
    assert_eq!(fields[1], ("s".into(), "abc".into()));
}

#[test]
fn empty_template_has_no_fields() {
    assert!(parse_form_template("   ", "x").unwrap().is_empty());
    assert!(parse_form_template("{}", "x").unwrap().is_empty());
}

#[test]
fn quotes_and_nested_commas() {
    let fields = parse_form_template("{'a': \"1\", b: [x, y], c: '%s'}", "kw").unwrap();
    assert_eq!(
        fields,
        vec![
            ("a".to_string(), "1".to_string()),
            ("b".to_string(), "[x, y]".to_string()),
            ("c".to_string(), "kw".to_string()),
        ]
    );
}

#[test]
fn embedded_placeholder_is_replaced_once() {
    let fields = parse_form_template("{q: pre%spost, r: %s%s}", "K").unwrap();
    assert_eq!(fields[0], ("q".to_string(), "preKpost".to_string()));
    assert_eq!(fields[1], ("r".to_string(), "%s%s".to_string()));
}

#[test]
fn unbraced_template_is_rejected() {
    match parse_form_template("searchkey=%s", "x") {
        Err(Error::Message(m)) => {
            assert_eq!(m, "search data must look like {key: value}, got: searchkey=%s")
        }
        other => panic!("unexpected: {other:?}"),
    }
    assert!(parse_form_template("{", "x").is_err());
}

#[test]
fn field_without_colon_is_rejected() {
    match parse_form_template("{a: 1, broken}", "x") {
        Err(Error::Message(m)) => assert_eq!(m, "invalid form field `broken` in `{a: 1, broken}`"),
        other => panic!("unexpected: {other:?}"),
    }
}
