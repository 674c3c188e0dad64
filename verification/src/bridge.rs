//! The value bridge: total, fallback-safe conversion between host objects and
//! engine tagged values, in both directions.
//!
//! A host object reaches this layer already classified into `HostValue`: the
//! unverified rim that talks to the host runtime probes each object in the
//! classification order fixed here (already-wrapped engine value, integer,
//! float, text, boolean, none, byte buffer, ordered sequence, unordered
//! collection, anything else) and hands over plain data.  For an unordered
//! collection the element order is whatever the host's iteration produced;
//! it is not guaranteed stable.

use vstd::prelude::*;

use crate::value::OpaqueHandle;
use crate::value::TaggedValue;

verus! {

/// A host object, classified.  The variant order mirrors the classification
/// order of the bridge: the first matching class wins.
pub enum HostValue {
    /// A host-side wrapper around an engine value: unwraps by identity.
    Wrapped(Box<TaggedValue>),
    Int(i64),
    /// A host float, carried as its IEEE-754 bit pattern.
    Float(u64),
    Text(String),
    Bool(bool),
    /// The host's null/none object.
    NoneVal,
    Bytes(Vec<u8>),
    /// An ordered host sequence (list or tuple-like).
    Sequence(Vec<HostValue>),
    /// An unordered host collection (set-like), in the order the host's
    /// iteration happened to produce.
    Unordered(Vec<HostValue>),
    /// Anything else: the token of the counted reference taken on the
    /// unclassifiable host object.
    Opaque(u64),
}

/// What `host_to_engine` produces for a given classified host object.
/// Total: every host value converts to exactly one shape of tagged value,
/// and no input is an error.
pub open spec fn converts_to(h: HostValue, v: TaggedValue) -> bool
    decreases h,
{
    match h {
        HostValue::Wrapped(w) => v.obs_eq(*w),
        HostValue::Int(i) => v == TaggedValue::Integer(i),
        HostValue::Float(bits) => v == TaggedValue::Float(bits),
        HostValue::Text(s) => v matches TaggedValue::Text(t) && t@ == s@,
        HostValue::Bool(b) => v == TaggedValue::Boolean(b),
        HostValue::NoneVal => v == TaggedValue::Null,
        HostValue::Bytes(bs) => v matches TaggedValue::Bytes(out) && out@ == bs@,
        HostValue::Sequence(items) => {
            &&& v matches TaggedValue::Tuple(elems)
            &&& elems@.len() == items@.len()
            &&& forall|i: int|
                0 <= i < items@.len() ==> converts_to(#[trigger] items@[i], elems@[i])
        },
        HostValue::Unordered(items) => {
            &&& v matches TaggedValue::Tuple(elems)
            &&& elems@.len() == items@.len()
            &&& forall|i: int|
                0 <= i < items@.len() ==> converts_to(#[trigger] items@[i], elems@[i])
        },
        HostValue::Opaque(r) => v == TaggedValue::Custom(OpaqueHandle { host_ref: r }),
    }
}

/// What `engine_to_host` produces for a given tagged value: a native host
/// primitive for the representable variants, and a host-side wrapper
/// carrying the value itself for every other variant.  Total as well.
pub open spec fn exports_to(v: TaggedValue, h: HostValue) -> bool {
    match v {
        TaggedValue::Integer(i) => h == HostValue::Int(i),
        TaggedValue::Float(bits) => h == HostValue::Float(bits),
        TaggedValue::Text(t) => h matches HostValue::Text(s) && s@ == t@,
        TaggedValue::Bytes(bs) => h matches HostValue::Bytes(out) && out@ == bs@,
        TaggedValue::Boolean(b) => h == HostValue::Bool(b),
        TaggedValue::Null => h == HostValue::NoneVal,
        _ => h matches HostValue::Wrapped(w) && (*w).obs_eq(v),
    }
}

/// Observable equality of two classified host objects, compared by contents,
/// as `TaggedValue::obs_eq` does for engine values.
pub open spec fn host_obs_eq(a: HostValue, b: HostValue) -> bool
    decreases a,
{
    match (a, b) {
        (HostValue::Wrapped(x), HostValue::Wrapped(y)) => (*x).obs_eq(*y),
        (HostValue::Int(x), HostValue::Int(y)) => x == y,
        (HostValue::Float(x), HostValue::Float(y)) => x == y,
        (HostValue::Text(x), HostValue::Text(y)) => x@ == y@,
        (HostValue::Bool(x), HostValue::Bool(y)) => x == y,
        (HostValue::NoneVal, HostValue::NoneVal) => true,
        (HostValue::Bytes(x), HostValue::Bytes(y)) => x@ == y@,
        (HostValue::Sequence(xs), HostValue::Sequence(ys)) => {
            &&& xs@.len() == ys@.len()
            &&& forall|i: int| 0 <= i < xs@.len() ==> host_obs_eq(#[trigger] xs@[i], ys@[i])
        },
        (HostValue::Unordered(xs), HostValue::Unordered(ys)) => {
            &&& xs@.len() == ys@.len()
            &&& forall|i: int| 0 <= i < xs@.len() ==> host_obs_eq(#[trigger] xs@[i], ys@[i])
        },
        (HostValue::Opaque(x), HostValue::Opaque(y)) => x == y,
        _ => false,
    }
}

/// Converts a classified host object into an engine value.  Total: every
/// input produces some tagged value, never an error; an object no native
/// variant can represent becomes an opaque `Custom` handle.
pub fn host_to_engine(h: &HostValue) -> (v: TaggedValue)
    ensures
        converts_to(*h, v),
    decreases *h,
{
    match h {
        HostValue::Wrapped(w) => w.deep_clone(),
        HostValue::Int(i) => TaggedValue::Integer(*i),
        HostValue::Float(bits) => TaggedValue::Float(*bits),
        HostValue::Text(s) => TaggedValue::Text(s.clone()),
        HostValue::Bool(b) => TaggedValue::Boolean(*b),
        HostValue::NoneVal => TaggedValue::Null,
        HostValue::Bytes(bs) => TaggedValue::Bytes(bs.clone()),
        HostValue::Sequence(items) => {
            let mut elems: Vec<TaggedValue> = Vec::new();
            let mut idx: usize = 0;
            while idx < items.len()
                invariant
                    *h == HostValue::Sequence(*items),
                    idx <= items@.len(),
                    elems@.len() == idx,
                    forall|j: int|
                        0 <= j < idx ==> converts_to(#[trigger] items@[j], elems@[j]),
                decreases items@.len() - idx,
            {
                proof {
                    assert(decreases_to!(*h => (*h)->Sequence_0));
                    assert((*h)->Sequence_0 == *items);
                    assert(decreases_to!(*items => items@));
                    let ghost s = items@;
                    assert(decreases_to!(s => s[idx as int]));
                    assert(decreases_to!(*h => items@[idx as int]));
                }
                let e = host_to_engine(&items[idx]);
                elems.push(e);
                idx = idx + 1;
            }
            TaggedValue::Tuple(elems)
        },
        HostValue::Unordered(items) => {
            let mut elems: Vec<TaggedValue> = Vec::new();
            let mut idx: usize = 0;
            while idx < items.len()
                invariant
                    *h == HostValue::Unordered(*items),
                    idx <= items@.len(),
                    elems@.len() == idx,
                    forall|j: int|
                        0 <= j < idx ==> converts_to(#[trigger] items@[j], elems@[j]),
                decreases items@.len() - idx,
            {
                proof {
                    assert(decreases_to!(*h => (*h)->Unordered_0));
                    assert((*h)->Unordered_0 == *items);
                    assert(decreases_to!(*items => items@));
                    let ghost s = items@;
                    assert(decreases_to!(s => s[idx as int]));
                    assert(decreases_to!(*h => items@[idx as int]));
                }
                let e = host_to_engine(&items[idx]);
                elems.push(e);
                idx = idx + 1;
            }
            TaggedValue::Tuple(elems)
        },
        HostValue::Opaque(r) => TaggedValue::Custom(OpaqueHandle { host_ref: *r }),
    }
}

/// Converts an engine value for the host.  Total: representable variants
/// become native host primitives; every other variant is handed out as a
/// wrapper that still owns the full engine value.
pub fn engine_to_host(v: &TaggedValue) -> (h: HostValue)
    ensures
        exports_to(*v, h),
{
    match v {
        TaggedValue::Integer(i) => HostValue::Int(*i),
        TaggedValue::Float(bits) => HostValue::Float(*bits),
        TaggedValue::Text(t) => HostValue::Text(t.clone()),
        TaggedValue::Bytes(bs) => HostValue::Bytes(bs.clone()),
        TaggedValue::Boolean(b) => HostValue::Bool(*b),
        TaggedValue::Null => HostValue::NoneVal,
        _ => HostValue::Wrapped(Box::new(v.deep_clone())),
    }
}

/// The six classes of host object with a native tagged representation.
pub open spec fn host_primitive(h: HostValue) -> bool {
    match h {
        HostValue::Int(_) => true,
        HostValue::Float(_) => true,
        HostValue::Text(_) => true,
        HostValue::Bool(_) => true,
        HostValue::NoneVal => true,
        HostValue::Bytes(_) => true,
        _ => false,
    }
}

/// Round trip on representable primitives: converting a primitive host
/// object into the engine and back produces a host object observably equal
/// to the one that went in.
pub proof fn lemma_primitive_round_trip(h: HostValue, v: TaggedValue, back: HostValue)
    requires
        host_primitive(h),
        converts_to(h, v),
        exports_to(v, back),
    ensures
        host_obs_eq(back, h),
{
}

/// Element order of an ordered host sequence is preserved through the
/// bridge: element `i` of the sequence converts to element `i` of the
/// resulting engine tuple, and the lengths agree.
pub proof fn lemma_sequence_order_preserved(items: Vec<HostValue>, v: TaggedValue)
    requires
        converts_to(HostValue::Sequence(items), v),
    ensures
        v matches TaggedValue::Tuple(elems) && {
            &&& elems@.len() == items@.len()
            &&& forall|i: int|
                0 <= i < items@.len() ==> converts_to(#[trigger] items@[i], elems@[i])
        },
{
}

/// Holds when some element of an engine tuple is the bridge's conversion of
/// the given host object: tuple membership, up to conversion.
pub open spec fn some_element_converts(elems: Seq<TaggedValue>, x: HostValue) -> bool {
    exists|j: int| 0 <= j < elems.len() && converts_to(x, #[trigger] elems[j])
}

/// Membership in an unordered host collection is preserved through the
/// bridge: every element the host handed over converts to some element of
/// the resulting engine tuple.  No order is asserted.
pub proof fn lemma_unordered_membership_preserved(items: Vec<HostValue>, v: TaggedValue)
    requires
        converts_to(HostValue::Unordered(items), v),
    ensures
        v is Tuple,
        forall|i: int| #![trigger items@[i]]
            0 <= i < items@.len() ==> some_element_converts(v->Tuple_0@, items@[i]),
{
    assert forall|i: int| #![trigger items@[i]] 0 <= i < items@.len() implies
        some_element_converts(v->Tuple_0@, items@[i]) by {
        assert(0 <= i < v->Tuple_0@.len() && converts_to(items@[i], v->Tuple_0@[i]));
    }
}

/// Builds an engine key-value pair from two classified host objects,
/// converting each component with the bridge.
pub fn make_pair(k: &HostValue, v: &HostValue) -> (r: TaggedValue)
    ensures
        r matches TaggedValue::Pair(rk, rv) && converts_to(*k, *rk) && converts_to(*v, *rv),
{
    TaggedValue::Pair(Box::new(host_to_engine(k)), Box::new(host_to_engine(v)))
}

/// Builds an engine named pair (an attribute binding) from two classified
/// host objects, converting each component with the bridge.
pub fn make_named(k: &HostValue, v: &HostValue) -> (r: TaggedValue)
    ensures
        r matches TaggedValue::Named(rk, rv) && converts_to(*k, *rk) && converts_to(*v, *rv),
{
    TaggedValue::Named(Box::new(host_to_engine(k)), Box::new(host_to_engine(v)))
}

} // verus!

verus! {

/// The bridge's conversion is a function: one classified host object
/// converts to one engine value, up to observable equality.  Together with
/// `host_to_engine`'s contract this pins the bridge's result down.
pub proof fn lemma_converts_deterministic(h: HostValue, v1: TaggedValue, v2: TaggedValue)
    requires
        converts_to(h, v1),
        converts_to(h, v2),
    ensures
        v1.obs_eq(v2),
    decreases h,
{
    match h {
        HostValue::Wrapped(w) => {
            crate::value::lemma_obs_eq_symmetric(v2, *w);
            crate::value::lemma_obs_eq_transitive(v1, *w, v2);
        },
        HostValue::Sequence(items) => {
            let xs = v1->Tuple_0;
            let ys = v2->Tuple_0;
            assert forall|i: int| 0 <= i < xs@.len() implies (#[trigger] xs@[i]).obs_eq(
                ys@[i],
            ) by {
                assert(converts_to(items@[i], xs@[i]));
                assert(converts_to(items@[i], ys@[i]));
                lemma_converts_deterministic(items@[i], xs@[i], ys@[i]);
            }
        },
        HostValue::Unordered(items) => {
            let xs = v1->Tuple_0;
            let ys = v2->Tuple_0;
            assert forall|i: int| 0 <= i < xs@.len() implies (#[trigger] xs@[i]).obs_eq(
                ys@[i],
            ) by {
                assert(converts_to(items@[i], xs@[i]));
                assert(converts_to(items@[i], ys@[i]));
                lemma_converts_deterministic(items@[i], xs@[i], ys@[i]);
            }
        },
        _ => {},
    }
}

} // verus!
