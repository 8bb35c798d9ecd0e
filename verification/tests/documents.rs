use zju_assist::json::{duplicate_all, parse_bytes, parse_text, Json};

fn read(text: &str) -> Json {
    parse_text(text).unwrap()
}

#[test]
fn documents_are_read_field_by_field() {
    let json = read(r#"{"a": "text", "n": -5, "big": 18446744073709551615, "list": [1, "x"], "o": {"k": null}}"#);
    assert_eq!(json.text_at("a"), Some("text"));
    assert_eq!(json.text_at("n"), None);
    assert_eq!(json.i64_at("n"), Some(-5));
    assert_eq!(json.u64_at("n"), None);
    assert_eq!(json.i64_at("big"), None);
    assert_eq!(json.u64_at("big"), Some(u64::MAX));
    assert_eq!(json.array_at("list").unwrap().len(), 2);
    assert!(json.array_at("o").is_none());
    assert_eq!(json.object_at("o").unwrap()[0].0, "k");
    assert!(json.get("missing").is_none());
    assert_eq!(json.text_or("a", "other"), "text");
    assert_eq!(json.text_or("missing", "other"), "other");
    assert!(matches!(json.get("o").unwrap().get("k"), Some(Json::Null)));
    assert!(read("[1]").get("a").is_none());
}

#[test]
fn numbers_that_are_no_integers_are_none() {
    let json = read(r#"{"f": 1.5, "e": 1e2}"#);
    assert_eq!(json.i64_at("f"), None);
    assert_eq!(json.i64_at("e"), None);
    match json.get("f") {
        Some(Json::Number(n)) => assert_eq!(n.text, "1.5"),
        _ => panic!("a number"),
    }
}

#[test]
fn what_is_not_a_document_is_refused_with_words() {
    assert_eq!(parse_text("<html>").err(), Some("expected value at line 1 column 1".to_string()));
    assert_eq!(parse_bytes(b"").err(), Some("EOF while parsing a value at line 1 column 0".to_string()));
    assert!(parse_bytes("{\"名\": 1}".as_bytes()).is_ok());
    assert!(parse_bytes(&[0xff]).is_err());
}

#[test]
fn a_copy_of_a_document_says_the_same() {
    let json = read(r#"{"a": [true, {"b": "c"}], "n": 3}"#);
    let copy = json.duplicate();
    let inner = &copy.array_at("a").unwrap()[1];
    assert_eq!(inner.text_at("b"), Some("c"));
    assert_eq!(copy.i64_at("n"), Some(3));
    let copies = duplicate_all(copy.array_at("a").unwrap());
    assert_eq!(copies.len(), 2);
    assert!(matches!(copies[0], Json::Bool(true)));
}
