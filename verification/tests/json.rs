use wwrpc::json::{parse, parse_bytes, put, Json};

#[test]
fn documents_are_read_and_taken_apart() {
    let doc = parse(r#"{"a": [1, "two", true, null, -3, 2.5], "b": {"c": "•"}}"#).unwrap();
    let list = doc.get("a").unwrap();
    assert_eq!(list.as_array().unwrap().len(), 6);
    assert_eq!(list.at(0).unwrap().as_u64(), Some(1));
    assert_eq!(list.at(0).unwrap().scalar(), Some("1".to_string()));
    assert_eq!(list.at(1).unwrap().as_str(), Some("two"));
    assert_eq!(list.at(1).unwrap().scalar(), Some("two".to_string()));
    assert_eq!(list.at(2), Some(&Json::Bool(true)));
    assert_eq!(list.at(2).unwrap().scalar(), None);
    assert_eq!(list.at(3), Some(&Json::Null));
    assert_eq!(list.at(4).unwrap().as_u64(), None);
    assert_eq!(list.at(4).unwrap().scalar(), Some("-3".to_string()));
    assert_eq!(list.at(5).unwrap().as_u64(), None);
    assert_eq!(list.at(5).unwrap().scalar(), Some("2.5".to_string()));
    assert_eq!(list.at(6), None);
    assert_eq!(doc.get("b").unwrap().get("c").unwrap().as_str(), Some("•"));
    assert_eq!(doc.get("missing"), None);
    assert_eq!(doc.get("a").unwrap().get("x"), None);
    assert_eq!(doc.as_array(), None);
    assert_eq!(doc.as_str(), None);
}

#[test]
fn garbage_is_no_document() {
    for text in ["", "not json", "{", "[1,]", "{\"a\" 1}", "1 2"] {
        assert_eq!(parse(text), None, "{text}");
        assert_eq!(parse_bytes(text.as_bytes()), None, "{text}");
    }
    assert_eq!(parse_bytes(b"\"\xff\""), None);
    assert_eq!(parse_bytes(b"[7]").unwrap().at(0).unwrap().as_u64(), Some(7));
}

#[test]
fn the_last_of_two_members_with_one_name_counts() {
    let doc = parse(r#"{"a": 1, "a": 2}"#).unwrap();
    assert_eq!(doc.get("a").unwrap().as_u64(), Some(2));
    let mut members: Vec<(String, Json)> = Vec::new();
    put(&mut members, "a", Json::unsigned(1));
    put(&mut members, "a", Json::unsigned(2));
    let doc = Json::Object(members);
    assert_eq!(doc.get("a").unwrap().as_u64(), Some(2));
    assert_eq!(doc.render(), r#"{"a":2}"#);
}

#[test]
fn documents_read_back_as_themselves() {
    let mut members: Vec<(String, Json)> = Vec::new();
    put(&mut members, "big", Json::unsigned(u64::MAX));
    put(&mut members, "small", Json::integer(i64::MIN));
    put(&mut members, "text", Json::string("a \"quoted\" \n • line"));
    put(&mut members, "list", Json::Array(vec![Json::Null, Json::Bool(false)]));
    let doc = Json::Object(members);
    let text = doc.render();
    assert_eq!(
        text,
        r#"{"big":18446744073709551615,"list":[null,false],"small":-9223372036854775808,"text":"a \"quoted\" \n • line"}"#
    );
    let again = parse(&text).unwrap();
    assert_eq!(again.render(), text);
    assert_eq!(again.get("big").unwrap().as_u64(), Some(u64::MAX));
    assert_eq!(again.get("text").unwrap().as_str(), Some("a \"quoted\" \n • line"));
}

#[test]
fn documents_nest_to_a_bound() {
    let deep = |n: usize| format!("{}{}", "[".repeat(n), "]".repeat(n));
    assert!(parse(&deep(127)).is_some());
    assert!(parse(&deep(128)).is_none());
    assert_eq!(parse(&deep(127)).unwrap().render(), deep(127));
}

#[test]
fn large_and_odd_numbers_keep_their_kind() {
    assert_eq!(parse("1e3").unwrap().as_u64(), None);
    assert_eq!(parse("10").unwrap().as_u64(), Some(10));
    assert_eq!(parse("18446744073709551616").unwrap().as_u64(), None);
    assert_eq!(parse("1.0").unwrap().as_u64(), None);
    assert_eq!(parse("-0").unwrap().as_u64(), None);
}

#[test]
fn documents_are_printed_with_line_breaks() {
    let doc = parse(r#"{"b":[1,{}],"a":"x"}"#).unwrap();
    assert_eq!(
        doc.render_pretty(),
        Some("{\n  \"a\": \"x\",\n  \"b\": [\n    1,\n    {}\n  ]\n}".to_string())
    );
    assert_eq!(parse(&doc.render_pretty().unwrap()).unwrap().render(), doc.render());
}
