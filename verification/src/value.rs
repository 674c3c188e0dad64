//! The engine's immutable tagged-value model, and the handle that carries an
//! unclassifiable host object through the engine as an inert value.
//!
//! Every value is immutable once constructed: no operation in this crate
//! mutates a `TaggedValue` in place; "modifying" operations build new values.

use vstd::prelude::*;

verus! {

/// Engine-side handle that exclusively owns one counted reference to a host
/// object.  The host reference is identified here by a numeric token; the
/// layer that talks to the host runtime keeps the token-to-object table and
/// releases the counted reference when the last holder of the handle drops.
#[derive(Debug)]
pub struct OpaqueHandle {
    /// Token naming the counted host-object reference this handle owns.
    pub host_ref: u64,
}

/// The engine's closed, immutable value representation.
///
/// A float travels through this layer untouched, as its IEEE-754 bit
/// pattern: the bridge only moves float values between the two runtimes and
/// never computes with them, so the payload stays opaque here.
#[derive(Debug)]
pub enum TaggedValue {
    Integer(i64),
    Float(u64),
    Text(String),
    Bytes(Vec<u8>),
    Boolean(bool),
    Null,
    Undefined(Option<String>),
    Range(i64, i64),
    Tuple(Vec<TaggedValue>),
    Pair(Box<TaggedValue>, Box<TaggedValue>),
    Named(Box<TaggedValue>, Box<TaggedValue>),
    Custom(OpaqueHandle),
}

impl TaggedValue {
    /// Observable equality of two value trees: same variant, same payload,
    /// compared by contents (texts and byte buffers by their characters and
    /// bytes, floats by their bit patterns, handles by the host reference
    /// they own).  This is the identity notion used to state that copies and
    /// round trips reproduce a value; it is not the engine's `==` operation,
    /// which lives in the operation surface.
    pub open spec fn obs_eq(self, other: TaggedValue) -> bool
        decreases self,
    {
        match (self, other) {
            (TaggedValue::Integer(a), TaggedValue::Integer(b)) => a == b,
            (TaggedValue::Float(a), TaggedValue::Float(b)) => a == b,
            (TaggedValue::Text(a), TaggedValue::Text(b)) => a@ == b@,
            (TaggedValue::Bytes(a), TaggedValue::Bytes(b)) => a@ == b@,
            (TaggedValue::Boolean(a), TaggedValue::Boolean(b)) => a == b,
            (TaggedValue::Null, TaggedValue::Null) => true,
            (TaggedValue::Undefined(a), TaggedValue::Undefined(b)) => match (a, b) {
                (Option::None, Option::None) => true,
                (Option::Some(ra), Option::Some(rb)) => ra@ == rb@,
                _ => false,
            },
            (TaggedValue::Range(a0, a1), TaggedValue::Range(b0, b1)) => a0 == b0 && a1 == b1,
            (TaggedValue::Tuple(xs), TaggedValue::Tuple(ys)) => {
                &&& xs@.len() == ys@.len()
                &&& forall|i: int|
                    0 <= i < xs@.len() ==> (#[trigger] xs@[i]).obs_eq(ys@[i])
            },
            (TaggedValue::Pair(k1, v1), TaggedValue::Pair(k2, v2)) => {
                (*k1).obs_eq(*k2) && (*v1).obs_eq(*v2)
            },
            (TaggedValue::Named(k1, v1), TaggedValue::Named(k2, v2)) => {
                (*k1).obs_eq(*k2) && (*v1).obs_eq(*v2)
            },
            (TaggedValue::Custom(a), TaggedValue::Custom(b)) => a.host_ref == b.host_ref,
            _ => false,
        }
    }

    /// Builds an independent value tree observably equal to this one.
    /// Values are immutable, so sharing and copying are indistinguishable to
    /// the engine; this is the copy used when an adapter forks its state.
    pub fn deep_clone(&self) -> (r: TaggedValue)
        ensures
            r.obs_eq(*self),
        decreases *self,
    {
        match self {
            TaggedValue::Integer(a) => TaggedValue::Integer(*a),
            TaggedValue::Float(a) => TaggedValue::Float(*a),
            TaggedValue::Text(a) => TaggedValue::Text(a.clone()),
            TaggedValue::Bytes(a) => TaggedValue::Bytes(a.clone()),
            TaggedValue::Boolean(a) => TaggedValue::Boolean(*a),
            TaggedValue::Null => TaggedValue::Null,
            TaggedValue::Undefined(reason) => match reason {
                Option::None => TaggedValue::Undefined(Option::None),
                Option::Some(r0) => TaggedValue::Undefined(Option::Some(r0.clone())),
            },
            TaggedValue::Range(a0, a1) => TaggedValue::Range(*a0, *a1),
            TaggedValue::Tuple(xs) => {
                let mut out: Vec<TaggedValue> = Vec::new();
                let mut idx: usize = 0;
                while idx < xs.len()
                    invariant
                        *self == TaggedValue::Tuple(*xs),
                        idx <= xs@.len(),
                        out@.len() == idx,
                        forall|j: int| 0 <= j < idx ==> (#[trigger] out@[j]).obs_eq(xs@[j]),
                    decreases xs@.len() - idx,
                {
                    proof {
                        assert(decreases_to!(*self => (*self)->Tuple_0));
                        assert((*self)->Tuple_0 == *xs);
                        assert(decreases_to!(*xs => xs@));
                        let ghost s = xs@;
                        assert(decreases_to!(s => s[idx as int]));
                        assert(decreases_to!(*self => xs@[idx as int]));
                    }
                    let e = xs[idx].deep_clone();
                    out.push(e);
                    idx = idx + 1;
                }
                TaggedValue::Tuple(out)
            },
            TaggedValue::Pair(k, v) => TaggedValue::Pair(
                Box::new(k.deep_clone()),
                Box::new(v.deep_clone()),
            ),
            TaggedValue::Named(k, v) => TaggedValue::Named(
                Box::new(k.deep_clone()),
                Box::new(v.deep_clone()),
            ),
            TaggedValue::Custom(h) => TaggedValue::Custom(OpaqueHandle { host_ref: h.host_ref }),
        }
    }
}

/// Observable equality is symmetric: observably equal value trees are
/// observably equal in either order.
pub proof fn lemma_obs_eq_symmetric(a: TaggedValue, b: TaggedValue)
    requires
        a.obs_eq(b),
    ensures
        b.obs_eq(a),
    decreases a,
{
    match (a, b) {
        (TaggedValue::Tuple(xs), TaggedValue::Tuple(ys)) => {
            assert forall|i: int| 0 <= i < ys@.len() implies (#[trigger] ys@[i]).obs_eq(
                xs@[i],
            ) by {
                assert(xs@[i].obs_eq(ys@[i]));
                lemma_obs_eq_symmetric(xs@[i], ys@[i]);
            }
        },
        (TaggedValue::Pair(k1, v1), TaggedValue::Pair(k2, v2)) => {
            lemma_obs_eq_symmetric(*k1, *k2);
            lemma_obs_eq_symmetric(*v1, *v2);
        },
        (TaggedValue::Named(k1, v1), TaggedValue::Named(k2, v2)) => {
            lemma_obs_eq_symmetric(*k1, *k2);
            lemma_obs_eq_symmetric(*v1, *v2);
        },
        _ => {},
    }
}

/// Observable equality is transitive: two value trees observably equal to a
/// common middle one are observably equal to each other.
pub proof fn lemma_obs_eq_transitive(a: TaggedValue, b: TaggedValue, c: TaggedValue)
    requires
        a.obs_eq(b),
        b.obs_eq(c),
    ensures
        a.obs_eq(c),
    decreases a,
{
    match (a, c) {
        (TaggedValue::Tuple(xs), TaggedValue::Tuple(zs)) => {
            let ys = b->Tuple_0;
            assert forall|i: int| 0 <= i < xs@.len() implies (#[trigger] xs@[i]).obs_eq(
                zs@[i],
            ) by {
                assert(xs@[i].obs_eq(ys@[i]));
                assert(ys@[i].obs_eq(zs@[i]));
                lemma_obs_eq_transitive(xs@[i], ys@[i], zs@[i]);
            }
        },
        (TaggedValue::Pair(k1, v1), TaggedValue::Pair(k3, v3)) => {
            lemma_obs_eq_transitive(*k1, *b->Pair_0, *k3);
            lemma_obs_eq_transitive(*v1, *b->Pair_1, *v3);
        },
        (TaggedValue::Named(k1, v1), TaggedValue::Named(k3, v3)) => {
            lemma_obs_eq_transitive(*k1, *b->Named_0, *k3);
            lemma_obs_eq_transitive(*v1, *b->Named_1, *v3);
        },
        _ => {},
    }
}

/// Observable equality is reflexive: every value tree is observably equal to
/// itself.
pub proof fn lemma_obs_eq_reflexive(v: TaggedValue)
    ensures
        v.obs_eq(v),
    decreases v,
{
    match v {
        TaggedValue::Tuple(xs) => {
            assert forall|i: int| 0 <= i < xs@.len() implies (#[trigger] xs@[i]).obs_eq(
                xs@[i],
            ) by {
                lemma_obs_eq_reflexive(xs@[i]);
            }
        },
        TaggedValue::Pair(k, w) => {
            lemma_obs_eq_reflexive(*k);
            lemma_obs_eq_reflexive(*w);
        },
        TaggedValue::Named(k, w) => {
            lemma_obs_eq_reflexive(*k);
            lemma_obs_eq_reflexive(*w);
        },
        _ => {},
    }
}

} // verus!
