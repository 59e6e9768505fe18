use arangodb_session::wire::{encode_object_to_string, encode_to_string, parse_object_text, parse_text};
use arangodb_session::{Field, Value};

fn fld(name: &str, value: Value) -> Field {
    Field { name: name.to_owned(), value }
}

fn s(v: &str) -> Value {
    Value::Str(v.to_owned())
}

#[test]
fn encode_scalars_exactly() {
    assert_eq!("null", encode_to_string(&Value::Null));
    assert_eq!("true", encode_to_string(&Value::Bool(true)));
    assert_eq!("false", encode_to_string(&Value::Bool(false)));
    assert_eq!("0", encode_to_string(&Value::Int(0)));
    assert_eq!("42", encode_to_string(&Value::Int(42)));
    assert_eq!("-7", encode_to_string(&Value::Int(-7)));
    assert_eq!(
        "9223372036854775807",
        encode_to_string(&Value::Int(i64::MAX))
    );
    assert_eq!(
        "-9223372036854775808",
        encode_to_string(&Value::Int(i64::MIN))
    );
    assert_eq!("\"hello\"", encode_to_string(&s("hello")));
    assert_eq!("\"\"", encode_to_string(&s("")));
}

#[test]
fn encode_escapes_quotes_backslashes_and_controls() {
    assert_eq!(r#""a\"b""#, encode_to_string(&s("a\"b")));
    assert_eq!(r#""a\\b""#, encode_to_string(&s("a\\b")));
    assert_eq!(r#""a\nb\tc\rd""#, encode_to_string(&s("a\nb\tc\rd")));
}

#[test]
fn encode_sorts_object_fields_at_every_level() {
    let v = Value::Object(vec![
        fld("zeta", Value::Int(1)),
        fld("alpha", Value::Object(vec![
            fld("b", Value::Int(2)),
            fld("a", Value::Int(3)),
        ])),
        fld("mid", Value::Array(vec![Value::Object(vec![
            fld("y", Value::Null),
            fld("x", Value::Bool(false)),
        ])])),
    ]);
    assert_eq!(
        r#"{"alpha":{"a":3,"b":2},"mid":[{"x":false,"y":null}],"zeta":1}"#,
        encode_to_string(&v)
    );
}

#[test]
fn encode_empty_array_and_object() {
    assert_eq!("[]", encode_to_string(&Value::Array(vec![])));
    assert_eq!("{}", encode_to_string(&Value::Object(vec![])));
    assert_eq!("{}", encode_object_to_string(&vec![]));
}

#[test]
fn parse_accepts_whitespace_and_keeps_field_order() {
    let v = parse_text(" { \"b\" : 1 ,\n\t\"a\" : [ true , null ] } ").unwrap();
    assert_eq!(
        Value::Object(vec![
            fld("b", Value::Int(1)),
            fld("a", Value::Array(vec![Value::Bool(true), Value::Null])),
        ]),
        v
    );
}

#[test]
fn parse_reads_escapes_and_numbers() {
    assert_eq!(s("a\"b\\c/d\ne\rf\tg"), parse_text(r#""a\"b\\c\/d\ne\rf\tg""#).unwrap());
    assert_eq!(Value::Int(-12034), parse_text("-12034").unwrap());
    assert_eq!(Value::Int(i64::MAX), parse_text("9223372036854775807").unwrap());
    assert_eq!(Value::Int(i64::MIN), parse_text("-9223372036854775808").unwrap());
}

#[test]
fn parse_rejects_malformed_text() {
    assert_eq!(None, parse_text(""));
    assert_eq!(None, parse_text("{"));
    assert_eq!(None, parse_text("tru"));
    assert_eq!(None, parse_text("\"unterminated"));
    assert_eq!(None, parse_text(r#""bad \q escape""#));
    assert_eq!(None, parse_text("1.5"));
    assert_eq!(None, parse_text("9223372036854775808"));
    assert_eq!(None, parse_text("-9223372036854775809"));
    assert_eq!(None, parse_text("{} trailing"));
    assert_eq!(None, parse_text("[1,]"));
    assert_eq!(None, parse_text("{\"a\" 1}"));
}

#[test]
fn parse_object_text_wants_an_object() {
    assert!(parse_object_text("{\"a\":1}").is_some());
    assert_eq!(None, parse_object_text("[1,2]"));
    assert_eq!(None, parse_object_text("3"));
}

#[test]
fn parse_then_encode_is_canonical() {
    let v = parse_text("{ \"b\" : 1, \"a\" : \"x\" }").unwrap();
    assert_eq!(r#"{"a":"x","b":1}"#, encode_to_string(&v));
    let again = parse_text(&encode_to_string(&v)).unwrap();
    assert_eq!(encode_to_string(&v), encode_to_string(&again));
}

#[test]
fn value_lookup_finds_first_field() {
    let v = Value::Object(vec![
        fld("a", Value::Int(1)),
        fld("b", Value::Int(2)),
        fld("a", Value::Int(3)),
    ]);
    assert_eq!(Some(&Value::Int(1)), v.get("a"));
    assert_eq!(Some(&Value::Int(2)), v.get("b"));
    assert_eq!(None, v.get("c"));
    assert_eq!(None, Value::Int(5).get("a"));
}

#[test]
fn value_clone_is_deep() {
    let v = Value::Object(vec![fld("a", Value::Array(vec![s("x"), Value::Int(1)]))]);
    let w = v.clone();
    assert_eq!(v, w);
    assert_eq!(encode_to_string(&v), encode_to_string(&w));
}
