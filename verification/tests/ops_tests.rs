use onion_bridge::errors::engine_error_to_host;
use onion_bridge::errors::BridgeError;
use onion_bridge::ops::attr_lookup;
use onion_bridge::ops::build_named_dict;
use onion_bridge::ops::get_attr_direct;
use onion_bridge::ops::type_tag;
use onion_bridge::ops::unwrap_host;
use onion_bridge::ops::value_abs;
use onion_bridge::ops::value_add;
use onion_bridge::ops::value_at;
use onion_bridge::ops::value_bit_and;
use onion_bridge::ops::value_bit_or;
use onion_bridge::ops::value_bit_xor;
use onion_bridge::ops::value_contains;
use onion_bridge::ops::value_div;
use onion_bridge::ops::value_equals;
use onion_bridge::ops::value_gt;
use onion_bridge::ops::value_key_of;
use onion_bridge::ops::value_len;
use onion_bridge::ops::value_lt;
use onion_bridge::ops::value_mod;
use onion_bridge::ops::value_mul;
use onion_bridge::ops::value_neg;
use onion_bridge::ops::value_not;
use onion_bridge::ops::value_pow;
use onion_bridge::ops::value_shl;
use onion_bridge::ops::value_shr;
use onion_bridge::ops::value_sub;
use onion_bridge::ops::value_value_of;
use onion_bridge::value::OpaqueHandle;
use onion_bridge::value::TaggedValue;

fn ival(v: i64) -> TaggedValue {
    TaggedValue::Integer(v)
}

fn text(s: &str) -> TaggedValue {
    TaggedValue::Text(s.to_string())
}

fn expect_int(r: Result<TaggedValue, BridgeError>, expected: i64) {
    match r {
        Ok(TaggedValue::Integer(n)) => assert_eq!(n, expected),
        _ => panic!("expected the integer {}", expected),
    }
}

fn expect_bool_result(r: Result<bool, BridgeError>, expected: bool) {
    match r {
        Ok(b) => assert_eq!(b, expected),
        _ => panic!("expected the boolean {}", expected),
    }
}

fn expect_boolean(r: Result<TaggedValue, BridgeError>, expected: bool) {
    match r {
        Ok(TaggedValue::Boolean(b)) => assert_eq!(b, expected),
        _ => panic!("expected the boolean value {}", expected),
    }
}

#[test]
fn equality_is_structural() {
    let a = TaggedValue::Tuple(vec![ival(1), text("x")]);
    let b = TaggedValue::Tuple(vec![ival(1), text("x")]);
    let c = TaggedValue::Tuple(vec![ival(1), text("y")]);
    assert!(value_equals(&a, &b));
    assert!(!value_equals(&a, &c));
    assert!(value_equals(&TaggedValue::Null, &TaggedValue::Null));
    assert!(!value_equals(&ival(1), &text("1")));
    assert!(value_equals(
        &TaggedValue::Undefined(Some("a".to_string())),
        &TaggedValue::Undefined(None),
    ));
}

#[test]
fn comparisons_on_integers() {
    expect_bool_result(value_lt(&ival(2), &ival(3)), true);
    expect_bool_result(value_lt(&ival(3), &ival(3)), false);
    expect_bool_result(value_gt(&ival(5), &ival(3)), true);
    assert!(value_lt(&text("a"), &text("b")).is_err());
}

#[test]
fn addition_across_variants() {
    expect_int(value_add(&ival(2), &ival(3)), 5);
    expect_int(value_add(&ival(i64::MAX), &ival(1)), i64::MIN);
    match value_add(&text("ab"), &text("cd")) {
        Ok(TaggedValue::Text(s)) => assert_eq!(s, "abcd"),
        _ => panic!("expected concatenation"),
    }
    match value_add(
        &TaggedValue::Bytes(vec![1, 2]),
        &TaggedValue::Bytes(vec![3]),
    ) {
        Ok(TaggedValue::Bytes(b)) => assert_eq!(b, vec![1, 2, 3]),
        _ => panic!("expected byte concatenation"),
    }
    match value_add(
        &TaggedValue::Tuple(vec![ival(1)]),
        &TaggedValue::Tuple(vec![ival(2), ival(3)]),
    ) {
        Ok(TaggedValue::Tuple(es)) => assert_eq!(es.len(), 3),
        _ => panic!("expected tuple concatenation"),
    }
    match value_add(&TaggedValue::Tuple(vec![ival(1)]), &ival(2)) {
        Ok(TaggedValue::Undefined(Some(_))) => {}
        _ => panic!("expected an undefined value"),
    }
    assert!(value_add(&TaggedValue::Null, &ival(1)).is_err());
}

#[test]
fn subtraction_and_multiplication_wrap() {
    expect_int(value_sub(&ival(3), &ival(5)), -2);
    expect_int(value_sub(&ival(i64::MIN), &ival(1)), i64::MAX);
    expect_int(value_mul(&ival(6), &ival(7)), 42);
}

#[test]
fn division_truncates_toward_zero() {
    expect_int(value_div(&ival(7), &ival(2)), 3);
    expect_int(value_div(&ival(-7), &ival(2)), -3);
    expect_int(value_div(&ival(7), &ival(-2)), -3);
    expect_int(value_div(&ival(-7), &ival(-2)), 3);
    expect_int(value_div(&ival(i64::MIN), &ival(-1)), i64::MIN);
    match value_div(&ival(1), &ival(0)) {
        Err(BridgeError::InvalidOperation(m)) => assert_eq!(m, "Division by zero"),
        _ => panic!("expected division by zero"),
    }
}

#[test]
fn remainder_follows_dividend() {
    expect_int(value_mod(&ival(7), &ival(2)), 1);
    expect_int(value_mod(&ival(-7), &ival(2)), -1);
    expect_int(value_mod(&ival(7), &ival(-2)), 1);
    assert!(value_mod(&ival(1), &ival(0)).is_err());
}

#[test]
fn power_exact_and_guarded() {
    expect_int(value_pow(&ival(2), &ival(10)), 1024);
    expect_int(value_pow(&ival(-2), &ival(3)), -8);
    expect_int(value_pow(&ival(5), &ival(0)), 1);
    expect_int(value_pow(&ival(0), &ival(0)), 1);
    expect_int(value_pow(&ival(0), &ival(9)), 0);
    expect_int(value_pow(&ival(-1), &ival(101)), -1);
    assert!(value_pow(&ival(2), &ival(-1)).is_err());
    assert!(value_pow(&ival(2), &ival(64)).is_err());
}

#[test]
fn bitwise_operations() {
    expect_int(value_bit_and(&ival(6), &ival(3)), 2);
    expect_int(value_bit_or(&ival(6), &ival(3)), 7);
    expect_int(value_bit_xor(&ival(6), &ival(3)), 5);
    expect_boolean(
        value_bit_and(&TaggedValue::Boolean(true), &TaggedValue::Boolean(false)),
        false,
    );
    expect_int(value_shl(&ival(1), &ival(4)), 16);
    expect_int(value_shr(&ival(-8), &ival(1)), -4);
    assert!(value_shl(&ival(1), &ival(64)).is_err());
    assert!(value_shl(&ival(1), &ival(-1)).is_err());
}

#[test]
fn unary_operations() {
    expect_int(value_neg(&ival(5)), -5);
    expect_int(value_neg(&ival(i64::MIN)), i64::MIN);
    expect_int(value_abs(&ival(-5)), 5);
    expect_int(value_abs(&ival(i64::MIN)), i64::MIN);
    expect_int(value_not(&ival(0)), -1);
    expect_boolean(value_not(&TaggedValue::Boolean(true)), false);
}

#[test]
fn float_operands_are_delegated() {
    let f = TaggedValue::Float(1.5f64.to_bits());
    match value_add(&f, &ival(1)) {
        Err(BridgeError::InvalidOperation(m)) => {
            assert_eq!(m, "Float arithmetic is delegated to the host float unit");
        }
        _ => panic!("expected the float-unit error"),
    }
    assert!(value_lt(&f, &f).is_err());
}

#[test]
fn length_of_values() {
    expect_int(value_len(&TaggedValue::Tuple(vec![ival(1), ival(2)])), 2);
    expect_int(value_len(&text("abc")), 3);
    expect_int(value_len(&TaggedValue::Bytes(vec![0, 1])), 2);
    expect_int(value_len(&TaggedValue::Range(3, 10)), 7);
    assert!(value_len(&ival(1)).is_err());
}

#[test]
fn indexing_values() {
    let t = TaggedValue::Tuple(vec![ival(10), ival(20)]);
    expect_int(value_at(&t, 1), 20);
    assert!(value_at(&t, 2).is_err());
    assert!(value_at(&t, -1).is_err());
    match value_at(&text("abc"), 1) {
        Ok(TaggedValue::Text(s)) => assert_eq!(s, "b"),
        _ => panic!("expected a one-character text"),
    }
    match value_at(&TaggedValue::Bytes(vec![9, 8]), 0) {
        Ok(TaggedValue::Bytes(b)) => assert_eq!(b, vec![9]),
        _ => panic!("expected a one-byte buffer"),
    }
}

#[test]
fn key_and_value_of_pairs() {
    let p = TaggedValue::Pair(Box::new(text("k")), Box::new(ival(1)));
    match value_key_of(&p) {
        Ok(TaggedValue::Text(s)) => assert_eq!(s, "k"),
        _ => panic!("expected the key"),
    }
    expect_int(value_value_of(&p), 1);
    match value_value_of(&TaggedValue::Undefined(Some("why".to_string()))) {
        Ok(TaggedValue::Text(s)) => assert_eq!(s, "why"),
        _ => panic!("expected the reason text"),
    }
    assert!(value_key_of(&ival(1)).is_err());
}

#[test]
fn containment() {
    let t = TaggedValue::Tuple(vec![ival(1), text("x")]);
    expect_bool_result(value_contains(&t, &text("x")), true);
    expect_bool_result(value_contains(&t, &ival(2)), false);
    expect_bool_result(value_contains(&text("hello"), &text("ell")), true);
    expect_bool_result(value_contains(&text("hello"), &text("zz")), false);
    expect_bool_result(
        value_contains(&TaggedValue::Bytes(vec![1, 2, 3]), &TaggedValue::Bytes(vec![2, 3])),
        true,
    );
    expect_bool_result(value_contains(&TaggedValue::Range(0, 10), &ival(5)), true);
    expect_bool_result(value_contains(&TaggedValue::Range(0, 10), &ival(10)), false);
    expect_bool_result(
        value_contains(&TaggedValue::Range(0, 10), &TaggedValue::Range(2, 5)),
        true,
    );
}

#[test]
fn attribute_lookup_in_dictionaries() {
    let dict = build_named_dict(vec![
        ("alpha".to_string(), ival(1)),
        ("beta".to_string(), ival(2)),
    ]);
    expect_int(attr_lookup(&dict, &text("beta")), 2);
    assert!(attr_lookup(&dict, &text("gamma")).is_err());
    expect_int(get_attr_direct(&dict, "alpha".to_string()), 1);
}

#[test]
fn attribute_lookup_through_named_and_pair() {
    let inner = build_named_dict(vec![("x".to_string(), ival(9))]);
    let named = TaggedValue::Named(Box::new(text("outer")), Box::new(inner));
    expect_int(attr_lookup(&named, &text("x")), 9);
}

#[test]
fn unwrap_host_handles() {
    match unwrap_host(&TaggedValue::Custom(OpaqueHandle { host_ref: 12 })) {
        Ok(token) => assert_eq!(token, 12),
        _ => panic!("expected the host token"),
    }
    assert!(unwrap_host(&ival(1)).is_err());
}

#[test]
fn type_tags() {
    assert_eq!(type_tag(&ival(1)), "Integer");
    assert_eq!(type_tag(&text("a")), "String");
    assert_eq!(type_tag(&TaggedValue::Custom(OpaqueHandle { host_ref: 1 })), "HostObject");
    assert_eq!(type_tag(&TaggedValue::Null), "Null");
}

#[test]
fn typed_extraction_is_strict() {
    match ival(5).as_integer() {
        Ok(n) => assert_eq!(n, 5),
        _ => panic!("expected the integer payload"),
    }
    assert!(text("5").as_integer().is_err());
    match TaggedValue::Boolean(true).as_boolean() {
        Ok(b) => assert!(b),
        _ => panic!("expected the boolean payload"),
    }
    assert!(ival(1).as_boolean().is_err());
    assert!(ival(1).is_integer());
    assert!(!ival(1).is_float());
}

#[test]
fn error_messages_render() {
    let e = BridgeError::InvalidType("bad".to_string());
    assert_eq!(engine_error_to_host(&e), "Invalid type: bad");
    assert_eq!(
        engine_error_to_host(&BridgeError::Pending),
        "Pending: The operation is not yet complete"
    );
}
