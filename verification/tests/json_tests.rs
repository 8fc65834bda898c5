use vibebar::json::{item, member, parse_json, text_or, Json};

#[test]
fn parse_json_builds_the_tree() {
    let doc = parse_json(br#"{"b": [1, "x", true, null], "a": {"k": "v"}}"#).unwrap();
    let b = member(Some(&doc), "b");
    assert!(matches!(item(b, 0), Some(Json::Number(n)) if n == "1"));
    assert_eq!(text_or(item(b, 1), "?"), "x");
    assert!(item(b, 2).unwrap().eq_bool(true));
    assert!(matches!(item(b, 3), Some(Json::Null)));
    assert!(item(b, 4).is_none());
    assert_eq!(text_or(member(member(Some(&doc), "a"), "k"), "?"), "v");
}

#[test]
fn parse_json_rejects_non_json() {
    assert!(parse_json(b"not json").is_none());
    assert!(parse_json(b"").is_none());
    assert!(parse_json(b"[1, 2").is_none());
}

#[test]
fn missing_members_read_as_null() {
    let doc = parse_json(br#"{"a": 1}"#).unwrap();
    assert!(member(Some(&doc), "zz").is_none());
    assert!(member(member(Some(&doc), "zz"), "y").is_none());
    assert_eq!(text_or(member(Some(&doc), "a"), "dflt"), "dflt");
    assert!(doc.get("a").is_some());
    assert!(doc.get("b").is_none());
}

#[test]
fn comparisons_with_plain_values() {
    let doc = parse_json(br#"{"t": false, "s": "eDP-1", "n": 0}"#).unwrap();
    assert!(doc.get("t").unwrap().eq_bool(false));
    assert!(!doc.get("t").unwrap().eq_bool(true));
    assert!(!doc.get("n").unwrap().eq_bool(false));
    assert!(doc.get("s").unwrap().eq_str("eDP-1"));
    assert!(!doc.get("n").unwrap().eq_str("0"));
}
