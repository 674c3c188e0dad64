use onion_bridge::bridge::engine_to_host;
use onion_bridge::bridge::host_to_engine;
use onion_bridge::bridge::make_named;
use onion_bridge::bridge::make_pair;
use onion_bridge::bridge::HostValue;
use onion_bridge::value::OpaqueHandle;
use onion_bridge::value::TaggedValue;

fn assert_host_int(h: &HostValue, expected: i64) {
    match h {
        HostValue::Int(i) => assert_eq!(*i, expected),
        _ => panic!("expected a host integer"),
    }
}

#[test]
fn integer_round_trip() {
    let h = HostValue::Int(42);
    let v = host_to_engine(&h);
    assert!(matches!(v, TaggedValue::Integer(42)));
    let back = engine_to_host(&v);
    assert_host_int(&back, 42);
}

#[test]
fn float_round_trip_preserves_bits() {
    let bits = 2.5f64.to_bits();
    let h = HostValue::Float(bits);
    let v = host_to_engine(&h);
    assert!(matches!(v, TaggedValue::Float(b) if b == bits));
    let back = engine_to_host(&v);
    assert!(matches!(back, HostValue::Float(b) if b == bits));
}

#[test]
fn text_round_trip() {
    let h = HostValue::Text("hello".to_string());
    let v = host_to_engine(&h);
    assert!(matches!(&v, TaggedValue::Text(s) if s == "hello"));
    let back = engine_to_host(&v);
    assert!(matches!(&back, HostValue::Text(s) if s == "hello"));
}

#[test]
fn boolean_round_trip() {
    let back = engine_to_host(&host_to_engine(&HostValue::Bool(true)));
    assert!(matches!(back, HostValue::Bool(true)));
}

#[test]
fn none_round_trip() {
    let v = host_to_engine(&HostValue::NoneVal);
    assert!(matches!(v, TaggedValue::Null));
    let back = engine_to_host(&v);
    assert!(matches!(back, HostValue::NoneVal));
}

#[test]
fn bytes_round_trip() {
    let h = HostValue::Bytes(vec![1, 2, 3, 255]);
    let v = host_to_engine(&h);
    assert!(matches!(&v, TaggedValue::Bytes(b) if b == &vec![1u8, 2, 3, 255]));
    let back = engine_to_host(&v);
    assert!(matches!(&back, HostValue::Bytes(b) if b == &vec![1u8, 2, 3, 255]));
}

#[test]
fn sequence_preserves_order() {
    let h = HostValue::Sequence(vec![
        HostValue::Int(1),
        HostValue::Text("two".to_string()),
        HostValue::Int(3),
    ]);
    let v = host_to_engine(&h);
    match v {
        TaggedValue::Tuple(elems) => {
            assert_eq!(elems.len(), 3);
            assert!(matches!(elems[0], TaggedValue::Integer(1)));
            assert!(matches!(&elems[1], TaggedValue::Text(s) if s == "two"));
            assert!(matches!(elems[2], TaggedValue::Integer(3)));
        }
        _ => panic!("expected a tuple"),
    }
}

#[test]
fn unordered_preserves_membership() {
    let h = HostValue::Unordered(vec![HostValue::Int(7), HostValue::Int(9)]);
    let v = host_to_engine(&h);
    match v {
        TaggedValue::Tuple(elems) => {
            assert_eq!(elems.len(), 2);
            let mut seen7 = false;
            let mut seen9 = false;
            for e in &elems {
                match e {
                    TaggedValue::Integer(7) => seen7 = true,
                    TaggedValue::Integer(9) => seen9 = true,
                    _ => panic!("unexpected element"),
                }
            }
            assert!(seen7 && seen9);
        }
        _ => panic!("expected a tuple"),
    }
}

#[test]
fn wrapped_value_unwraps_by_identity() {
    let inner = TaggedValue::Range(2, 9);
    let h = HostValue::Wrapped(Box::new(inner));
    let v = host_to_engine(&h);
    assert!(matches!(v, TaggedValue::Range(2, 9)));
}

#[test]
fn unclassifiable_object_becomes_opaque_handle() {
    let h = HostValue::Opaque(77);
    let v = host_to_engine(&h);
    assert!(matches!(v, TaggedValue::Custom(OpaqueHandle { host_ref: 77 })));
}

#[test]
fn non_primitive_exports_as_wrapper() {
    let v = TaggedValue::Tuple(vec![TaggedValue::Integer(1)]);
    let back = engine_to_host(&v);
    match back {
        HostValue::Wrapped(w) => match *w {
            TaggedValue::Tuple(elems) => assert_eq!(elems.len(), 1),
            _ => panic!("expected the wrapped tuple"),
        },
        _ => panic!("expected a wrapper"),
    }
}

#[test]
fn pair_factory_converts_components() {
    let v = make_pair(&HostValue::Int(1), &HostValue::Text("v".to_string()));
    match v {
        TaggedValue::Pair(k, val) => {
            assert!(matches!(*k, TaggedValue::Integer(1)));
            assert!(matches!(&*val, TaggedValue::Text(s) if s == "v"));
        }
        _ => panic!("expected a pair"),
    }
}

#[test]
fn named_factory_converts_components() {
    let v = make_named(&HostValue::Text("name".to_string()), &HostValue::Int(5));
    match v {
        TaggedValue::Named(k, val) => {
            assert!(matches!(&*k, TaggedValue::Text(s) if s == "name"));
            assert!(matches!(*val, TaggedValue::Integer(5)));
        }
        _ => panic!("expected a named pair"),
    }
}
