use onion_bridge::byteslib;
use onion_bridge::errors::BridgeError;
use onion_bridge::ops::build_named_dict;
use onion_bridge::strlib;
use onion_bridge::tuplelib;
use onion_bridge::typeslib;
use onion_bridge::value::TaggedValue;

fn ival(v: i64) -> TaggedValue {
    TaggedValue::Integer(v)
}

fn text(s: &str) -> TaggedValue {
    TaggedValue::Text(s.to_string())
}

fn bytes(b: &[u8]) -> TaggedValue {
    TaggedValue::Bytes(b.to_vec())
}

fn dict(entries: Vec<(&str, TaggedValue)>) -> TaggedValue {
    build_named_dict(
        entries.into_iter().map(|(k, v)| (k.to_string(), v)).collect(),
    )
}

fn expect_text(r: Result<TaggedValue, BridgeError>, expected: &str) {
    match r {
        Ok(TaggedValue::Text(s)) => assert_eq!(s, expected),
        _ => panic!("expected the text {:?}", expected),
    }
}

fn expect_int(r: Result<TaggedValue, BridgeError>, expected: i64) {
    match r {
        Ok(TaggedValue::Integer(n)) => assert_eq!(n, expected),
        _ => panic!("expected the integer {}", expected),
    }
}

fn expect_boolean(r: Result<TaggedValue, BridgeError>, expected: bool) {
    match r {
        Ok(TaggedValue::Boolean(b)) => assert_eq!(b, expected),
        _ => panic!("expected the boolean {}", expected),
    }
}

fn expect_bytes(r: Result<TaggedValue, BridgeError>, expected: &[u8]) {
    match r {
        Ok(TaggedValue::Bytes(b)) => assert_eq!(b, expected.to_vec()),
        _ => panic!("expected the bytes {:?}", expected),
    }
}

#[test]
fn string_length_and_empty() {
    expect_int(strlib::length(&dict(vec![("string", text("héllo"))])), 6);
    expect_boolean(strlib::is_empty(&dict(vec![("string", text(""))])), true);
    expect_boolean(strlib::is_empty(&dict(vec![("string", text("x"))])), false);
    assert!(strlib::length(&dict(vec![("string", ival(1))])).is_err());
    assert!(strlib::length(&dict(vec![("other", text("x"))])).is_err());
}

#[test]
fn string_trim() {
    expect_text(strlib::trim(&dict(vec![("string", text("  a b\t\n"))])), "a b");
    expect_text(strlib::trim(&dict(vec![("string", text("   "))])), "");
    expect_text(strlib::trim(&dict(vec![("string", text("abc"))])), "abc");
}

#[test]
fn string_case_conversion() {
    expect_text(strlib::uppercase(&dict(vec![("string", text("aBc"))])), "ABC");
    expect_text(strlib::lowercase(&dict(vec![("string", text("AbC"))])), "abc");
}

#[test]
fn string_search_operations() {
    expect_boolean(
        strlib::contains(&dict(vec![("string", text("hello")), ("substring", text("ell"))])),
        true,
    );
    expect_int(
        strlib::index_of(&dict(vec![("string", text("hello")), ("substring", text("l"))])),
        2,
    );
    expect_int(
        strlib::index_of(&dict(vec![("string", text("hello")), ("substring", text("z"))])),
        -1,
    );
    expect_boolean(
        strlib::starts_with(&dict(vec![("string", text("hello")), ("prefix", text("he"))])),
        true,
    );
    expect_boolean(
        strlib::ends_with(&dict(vec![("string", text("hello")), ("suffix", text("lo"))])),
        true,
    );
    expect_boolean(
        strlib::ends_with(&dict(vec![("string", text("hello")), ("suffix", text("he"))])),
        false,
    );
}

#[test]
fn string_concat_repeat_reverse() {
    expect_text(
        strlib::concat(&dict(vec![("a", text("ab")), ("b", text("cd"))])),
        "abcd",
    );
    expect_text(
        strlib::repeat(&dict(vec![("string", text("ab")), ("count", ival(3))])),
        "ababab",
    );
    assert!(strlib::repeat(&dict(vec![("string", text("ab")), ("count", ival(-1))])).is_err());
    expect_text(strlib::reverse(&dict(vec![("string", text("abc"))])), "cba");
}

#[test]
fn string_substr() {
    expect_text(
        strlib::substr(&dict(vec![
            ("string", text("hello")),
            ("start", ival(1)),
            ("length", ival(3)),
        ])),
        "ell",
    );
    expect_text(
        strlib::substr(&dict(vec![
            ("string", text("hello")),
            ("start", ival(9)),
            ("length", ival(3)),
        ])),
        "",
    );
    expect_text(
        strlib::substr(&dict(vec![
            ("string", text("hello")),
            ("start", ival(3)),
            ("length", ival(99)),
        ])),
        "lo",
    );
}

#[test]
fn string_padding() {
    expect_text(
        strlib::pad_left(&dict(vec![
            ("string", text("7")),
            ("length", ival(3)),
            ("pad_char", text("0")),
        ])),
        "007",
    );
    expect_text(
        strlib::pad_right(&dict(vec![
            ("string", text("7")),
            ("length", ival(3)),
            ("pad_char", text("x")),
        ])),
        "7xx",
    );
    expect_text(
        strlib::pad_left(&dict(vec![
            ("string", text("abcd")),
            ("length", ival(3)),
            ("pad_char", text("0")),
        ])),
        "abcd",
    );
    expect_text(
        strlib::pad_left(&dict(vec![
            ("string", text("a")),
            ("length", ival(3)),
            ("pad_char", text("")),
        ])),
        "  a",
    );
}

#[test]
fn string_split() {
    match strlib::split(&dict(vec![("string", text("a,b,,c")), ("delimiter", text(","))])) {
        Ok(TaggedValue::Tuple(parts)) => {
            let expected = ["a", "b", "", "c"];
            assert_eq!(parts.len(), expected.len());
            for (p, e) in parts.iter().zip(expected.iter()) {
                assert!(matches!(p, TaggedValue::Text(s) if s == e));
            }
        }
        _ => panic!("expected the split tuple"),
    }
    assert!(
        strlib::split(&dict(vec![("string", text("ab")), ("delimiter", text(""))])).is_err()
    );
}

#[test]
fn string_replace() {
    expect_text(
        strlib::replace(&dict(vec![
            ("string", text("aaa")),
            ("from", text("aa")),
            ("to", text("b")),
        ])),
        "ba",
    );
    expect_text(
        strlib::replace(&dict(vec![
            ("string", text("hello world")),
            ("from", text("o")),
            ("to", text("0")),
        ])),
        "hell0 w0rld",
    );
}

#[test]
fn bytes_basic_operations() {
    expect_int(byteslib::length(&dict(vec![("bytes", bytes(&[1, 2, 3]))])), 3);
    expect_boolean(byteslib::is_empty(&dict(vec![("bytes", bytes(&[]))])), true);
    expect_bytes(
        byteslib::concat(&dict(vec![("a", bytes(&[1])), ("b", bytes(&[2, 3]))])),
        &[1, 2, 3],
    );
    expect_bytes(
        byteslib::reverse(&dict(vec![("bytes", bytes(&[1, 2, 3]))])),
        &[3, 2, 1],
    );
    expect_bytes(
        byteslib::repeat(&dict(vec![("bytes", bytes(&[7, 8])), ("count", ival(2))])),
        &[7, 8, 7, 8],
    );
}

#[test]
fn bytes_slice_get_set() {
    expect_bytes(
        byteslib::slice(&dict(vec![
            ("bytes", bytes(&[1, 2, 3, 4])),
            ("start", ival(1)),
            ("length", ival(2)),
        ])),
        &[2, 3],
    );
    expect_bytes(
        byteslib::slice(&dict(vec![
            ("bytes", bytes(&[1, 2])),
            ("start", ival(5)),
            ("length", ival(2)),
        ])),
        &[],
    );
    expect_int(
        byteslib::get_at(&dict(vec![("bytes", bytes(&[9, 8])), ("index", ival(1))])),
        8,
    );
    assert!(
        byteslib::get_at(&dict(vec![("bytes", bytes(&[9])), ("index", ival(5))])).is_err()
    );
    expect_bytes(
        byteslib::set_at(&dict(vec![
            ("bytes", bytes(&[1, 2, 3])),
            ("index", ival(1)),
            ("value", ival(255)),
        ])),
        &[1, 255, 3],
    );
}

#[test]
fn bytes_search_operations() {
    expect_int(
        byteslib::index_of(&dict(vec![
            ("bytes", bytes(&[5, 6, 7])),
            ("pattern", bytes(&[6, 7])),
        ])),
        1,
    );
    expect_int(
        byteslib::index_of(&dict(vec![("bytes", bytes(&[5])), ("pattern", bytes(&[]))])),
        0,
    );
    expect_boolean(
        byteslib::contains(&dict(vec![
            ("bytes", bytes(&[5, 6, 7])),
            ("pattern", bytes(&[9])),
        ])),
        false,
    );
    expect_boolean(
        byteslib::starts_with(&dict(vec![
            ("bytes", bytes(&[5, 6])),
            ("pattern", bytes(&[5])),
        ])),
        true,
    );
    expect_boolean(
        byteslib::ends_with(&dict(vec![
            ("bytes", bytes(&[5, 6])),
            ("pattern", bytes(&[6])),
        ])),
        true,
    );
}

#[test]
fn bytes_text_conversions() {
    expect_text(byteslib::to_string(&dict(vec![("bytes", bytes(b"hi"))])), "hi");
    assert!(byteslib::to_string(&dict(vec![("bytes", bytes(&[0xff, 0xfe]))])).is_err());
    expect_bytes(byteslib::from_string(&dict(vec![("string", text("hi"))])), b"hi");
}

#[test]
fn bytes_padding() {
    expect_bytes(
        byteslib::pad_left(&dict(vec![
            ("bytes", bytes(&[1])),
            ("length", ival(3)),
            ("pad_byte", ival(0)),
        ])),
        &[0, 0, 1],
    );
    expect_bytes(
        byteslib::pad_right(&dict(vec![
            ("bytes", bytes(&[1])),
            ("length", ival(3)),
            ("pad_byte", ival(9)),
        ])),
        &[1, 9, 9],
    );
}

#[test]
fn bytes_integer_lists() {
    expect_bytes(
        byteslib::from_integers(&dict(vec![(
            "list",
            TaggedValue::Tuple(vec![ival(1), ival(255), ival(0)]),
        )])),
        &[1, 255, 0],
    );
    assert!(byteslib::from_integers(&dict(vec![(
        "list",
        TaggedValue::Tuple(vec![ival(256)]),
    )]))
    .is_err());
    assert!(byteslib::from_integers(&dict(vec![(
        "list",
        TaggedValue::Tuple(vec![text("x")]),
    )]))
    .is_err());
    match byteslib::to_integers(&dict(vec![("bytes", bytes(&[3, 4]))])) {
        Ok(TaggedValue::Tuple(es)) => {
            assert!(matches!(es[0], TaggedValue::Integer(3)));
            assert!(matches!(es[1], TaggedValue::Integer(4)));
        }
        _ => panic!("expected the integer tuple"),
    }
}

#[test]
fn tuple_push_pop() {
    let container = TaggedValue::Tuple(vec![ival(1), ival(2)]);
    match tuplelib::push(&dict(vec![("container", container.deep_clone()), ("value", ival(3))])) {
        Ok(TaggedValue::Tuple(es)) => {
            assert_eq!(es.len(), 3);
            assert!(matches!(es[2], TaggedValue::Integer(3)));
        }
        _ => panic!("expected the grown tuple"),
    }
    match tuplelib::pop(&dict(vec![("container", container)])) {
        Ok(TaggedValue::Tuple(es)) => assert_eq!(es.len(), 1),
        _ => panic!("expected the shrunk tuple"),
    }
    assert!(
        tuplelib::pop(&dict(vec![("container", TaggedValue::Tuple(vec![]))])).is_err()
    );
}

#[test]
fn tuple_insert_remove() {
    let container = TaggedValue::Tuple(vec![ival(1), ival(3)]);
    match tuplelib::insert(&dict(vec![
        ("container", container.deep_clone()),
        ("index", ival(1)),
        ("value", ival(2)),
    ])) {
        Ok(TaggedValue::Tuple(es)) => {
            assert!(matches!(es[0], TaggedValue::Integer(1)));
            assert!(matches!(es[1], TaggedValue::Integer(2)));
            assert!(matches!(es[2], TaggedValue::Integer(3)));
        }
        _ => panic!("expected the inserted tuple"),
    }
    assert!(tuplelib::insert(&dict(vec![
        ("container", container.deep_clone()),
        ("index", ival(5)),
        ("value", ival(2)),
    ]))
    .is_err());
    match tuplelib::remove(&dict(vec![("container", container), ("index", ival(0))])) {
        Ok(TaggedValue::Tuple(es)) => {
            assert_eq!(es.len(), 1);
            assert!(matches!(es[0], TaggedValue::Integer(3)));
        }
        _ => panic!("expected the remaining tuple"),
    }
}

#[test]
fn types_to_int() {
    expect_int(typeslib::to_int(&dict(vec![("value", text(" -42 "))])), -42);
    expect_int(typeslib::to_int(&dict(vec![("value", ival(7))])), 7);
    expect_int(
        typeslib::to_int(&dict(vec![("value", TaggedValue::Boolean(true))])),
        1,
    );
    assert!(typeslib::to_int(&dict(vec![("value", text("4x"))])).is_err());
    assert!(typeslib::to_int(&dict(vec![("value", TaggedValue::Null)])).is_err());
}

#[test]
fn types_to_bool() {
    expect_boolean(typeslib::to_bool(&dict(vec![("value", text("Yes"))])), true);
    expect_boolean(typeslib::to_bool(&dict(vec![("value", text(" FALSE "))])), false);
    expect_boolean(typeslib::to_bool(&dict(vec![("value", text(""))])), false);
    expect_boolean(typeslib::to_bool(&dict(vec![("value", ival(0))])), false);
    expect_boolean(typeslib::to_bool(&dict(vec![("value", ival(3))])), true);
    expect_boolean(
        typeslib::to_bool(&dict(vec![("value", TaggedValue::Null)])),
        false,
    );
    expect_boolean(
        typeslib::to_bool(&dict(vec![("value", TaggedValue::Tuple(vec![]))])),
        true,
    );
    assert!(typeslib::to_bool(&dict(vec![("value", text("maybe"))])).is_err());
}

#[test]
fn types_classification() {
    expect_text(typeslib::type_of(&dict(vec![("value", ival(1))])), "Integer");
    expect_boolean(typeslib::is_int(&dict(vec![("value", ival(1))])), true);
    expect_boolean(typeslib::is_string(&dict(vec![("value", ival(1))])), false);
    expect_boolean(typeslib::is_bool(&dict(vec![("value", TaggedValue::Boolean(false))])), true);
    expect_boolean(typeslib::is_bytes(&dict(vec![("value", bytes(&[1]))])), true);
    expect_boolean(
        typeslib::is_float(&dict(vec![("value", TaggedValue::Float(0))])),
        true,
    );
}

#[test]
fn types_to_bytes() {
    expect_bytes(typeslib::to_bytes(&dict(vec![("value", text("ab"))])), b"ab");
    expect_bytes(typeslib::to_bytes(&dict(vec![("value", ival(-19))])), b"-19");
    expect_bytes(
        typeslib::to_bytes(&dict(vec![("value", TaggedValue::Boolean(true))])),
        &[1],
    );
    assert!(typeslib::to_bytes(&dict(vec![("value", TaggedValue::Null)])).is_err());
}

#[test]
fn types_find() {
    let obj = dict(vec![("k", ival(5))]);
    expect_int(typeslib::find(&dict(vec![("obj", obj.deep_clone()), ("key", text("k"))])), 5);
    match typeslib::find(&dict(vec![("obj", obj), ("key", text("missing"))])) {
        Ok(TaggedValue::Undefined(Some(m))) => assert_eq!(m, "Attribute not found"),
        _ => panic!("expected an undefined value"),
    }
}
