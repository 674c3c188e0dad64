//! The engine's operation surface over tagged values, as the host-side
//! wrapper of an engine value exposes it: classification predicates, typed
//! extraction, structural operations, attribute access, and the engine's
//! generic equality.  Every operation is a total function of the value
//! trees; one that the engine defines only for certain variants reports a
//! typed error on the rest.
//!
//! Numeric comparison and arithmetic across the float variant belong to the
//! host runtime's float unit and are not computed here: an operation whose
//! result would require float arithmetic reports a typed error, and the rim
//! that owns the float unit handles those operand shapes itself.

use vstd::prelude::*;
use vstd::string::StringExecFns;
use vstd::utf8::encode_utf8;
use vstd::arithmetic::power::lemma0_pow;
use vstd::arithmetic::power::lemma1_pow;
use vstd::arithmetic::power::lemma_pow1;
use vstd::arithmetic::power::lemma_pow_adds;
use vstd::arithmetic::power::pow;
use vstd::string::StrSliceExecFns;

use crate::errors::BridgeError;
use crate::value::OpaqueHandle;
use crate::value::TaggedValue;

verus! {

/// Relies on `str`'s `PartialEq` implementation: two string slices are
/// equal exactly when they hold the same characters.
pub assume_specification[ <str as PartialEq<str>>::eq ](a: &str, b: &str) -> (r: bool)
    ensures
        r == (a@ == b@),
;

/// The engine's type tag for each variant; the opaque handle reports the
/// fixed foreign-object tag.
pub open spec fn type_tag_spec(v: TaggedValue) -> Seq<char> {
    match v {
        TaggedValue::Integer(_) => "Integer"@,
        TaggedValue::Float(_) => "Float"@,
        TaggedValue::Text(_) => "String"@,
        TaggedValue::Bytes(_) => "Bytes"@,
        TaggedValue::Boolean(_) => "Boolean"@,
        TaggedValue::Null => "Null"@,
        TaggedValue::Undefined(_) => "Undefined"@,
        TaggedValue::Range(_, _) => "Range"@,
        TaggedValue::Tuple(_) => "Tuple"@,
        TaggedValue::Pair(_, _) => "Pair"@,
        TaggedValue::Named(_, _) => "Named"@,
        TaggedValue::Custom(_) => "HostObject"@,
    }
}

/// The engine's generic equality over two value trees.  Defined for every
/// pair of operands; an opaque handle is never equal to anything, not even
/// to a handle owning the very same host reference — identity of wrapped
/// host objects can only be decided host-side, after unwrapping.  Floats
/// compare by bit pattern; a float never equals an integer here, since
/// numeric cross-type comparison belongs to the float unit.
pub open spec fn eq_spec(a: TaggedValue, b: TaggedValue) -> bool
    decreases a,
{
    match (a, b) {
        (TaggedValue::Integer(x), TaggedValue::Integer(y)) => x == y,
        (TaggedValue::Float(x), TaggedValue::Float(y)) => x == y,
        (TaggedValue::Text(x), TaggedValue::Text(y)) => x@ == y@,
        (TaggedValue::Bytes(x), TaggedValue::Bytes(y)) => x@ == y@,
        (TaggedValue::Boolean(x), TaggedValue::Boolean(y)) => x == y,
        (TaggedValue::Null, TaggedValue::Null) => true,
        (TaggedValue::Undefined(_), TaggedValue::Undefined(_)) => true,
        (TaggedValue::Range(x0, x1), TaggedValue::Range(y0, y1)) => x0 == y0 && x1 == y1,
        (TaggedValue::Tuple(xs), TaggedValue::Tuple(ys)) => {
            &&& xs@.len() == ys@.len()
            &&& forall|i: int| 0 <= i < xs@.len() ==> eq_spec(#[trigger] xs@[i], ys@[i])
        },
        (TaggedValue::Pair(k1, v1), TaggedValue::Pair(k2, v2)) => {
            eq_spec(*k1, *k2) && eq_spec(*v1, *v2)
        },
        (TaggedValue::Named(k1, v1), TaggedValue::Named(k2, v2)) => {
            eq_spec(*k1, *k2) && eq_spec(*v1, *v2)
        },
        _ => false,
    }
}

/// The engine's generic equality operation.
pub fn value_equals(a: &TaggedValue, b: &TaggedValue) -> (r: bool)
    ensures
        r == eq_spec(*a, *b),
    decreases *a,
{
    match (a, b) {
        (TaggedValue::Integer(x), TaggedValue::Integer(y)) => *x == *y,
        (TaggedValue::Float(x), TaggedValue::Float(y)) => *x == *y,
        (TaggedValue::Text(x), TaggedValue::Text(y)) => x.as_str().eq(y.as_str()),
        (TaggedValue::Bytes(x), TaggedValue::Bytes(y)) => bytes_equal(x, y),
        (TaggedValue::Boolean(x), TaggedValue::Boolean(y)) => *x == *y,
        (TaggedValue::Null, TaggedValue::Null) => true,
        (TaggedValue::Undefined(_), TaggedValue::Undefined(_)) => true,
        (TaggedValue::Range(x0, x1), TaggedValue::Range(y0, y1)) => *x0 == *y0 && *x1 == *y1,
        (TaggedValue::Tuple(xs), TaggedValue::Tuple(ys)) => {
            if xs.len() != ys.len() {
                return false;
            }
            let mut idx: usize = 0;
            while idx < xs.len()
                invariant
                    *a == TaggedValue::Tuple(*xs),
                    *b == TaggedValue::Tuple(*ys),
                    xs@.len() == ys@.len(),
                    idx <= xs@.len(),
                    forall|j: int| 0 <= j < idx ==> eq_spec(#[trigger] xs@[j], ys@[j]),
                decreases xs@.len() - idx,
            {
                proof {
                    assert(decreases_to!(*a => (*a)->Tuple_0));
                    assert((*a)->Tuple_0 == *xs);
                    assert(decreases_to!(*xs => xs@));
                    let ghost s = xs@;
                    assert(decreases_to!(s => s[idx as int]));
                    assert(decreases_to!(*a => xs@[idx as int]));
                }
                if !value_equals(&xs[idx], &ys[idx]) {
                    return false;
                }
                idx = idx + 1;
            }
            true
        },
        (TaggedValue::Pair(k1, v1), TaggedValue::Pair(k2, v2)) => {
            value_equals(k1, k2) && value_equals(v1, v2)
        },
        (TaggedValue::Named(k1, v1), TaggedValue::Named(k2, v2)) => {
            value_equals(k1, k2) && value_equals(v1, v2)
        },
        _ => false,
    }
}

/// Byte-buffer equality, compared element by element.
pub fn bytes_equal(x: &Vec<u8>, y: &Vec<u8>) -> (r: bool)
    ensures
        r == (x@ == y@),
{
    if x.len() != y.len() {
        proof {
            assert(x@.len() != y@.len());
        }
        return false;
    }
    let mut idx: usize = 0;
    while idx < x.len()
        invariant
            x@.len() == y@.len(),
            idx <= x@.len(),
            forall|j: int| 0 <= j < idx ==> x@[j] == y@[j],
        decreases x@.len() - idx,
    {
        if x[idx] != y[idx] {
            return false;
        }
        idx = idx + 1;
    }
    proof {
        assert(x@ =~= y@);
    }
    true
}

/// Two opaque handles never report equal through the engine's generic
/// equality, even when both own the identical underlying host reference.
pub proof fn lemma_opaque_handles_never_equal(h1: OpaqueHandle, h2: OpaqueHandle)
    ensures
        !eq_spec(TaggedValue::Custom(h1), TaggedValue::Custom(h2)),
{
}

/// Host-side identity of two opaque handles as the engine sees it: always
/// false; only unwrapping both handles host-side can compare identity.
pub fn custom_is_same(a: &OpaqueHandle, b: &OpaqueHandle) -> (r: bool)
    ensures
        r == false,
{
    false
}

/// The fixed type tag an opaque handle reports for the host object it
/// carries.
pub fn custom_type_tag(h: &OpaqueHandle) -> (r: String)
    ensures
        r@ == "HostObject"@,
{
    String::from_str("HostObject")
}

/// The engine-traceable references an opaque handle declares to the
/// collector: none.  The handle is an opaque leaf; the engine's collector
/// cannot see through it.
pub fn traceable_references(h: &OpaqueHandle) -> (r: Vec<u64>)
    ensures
        r@.len() == 0,
{
    Vec::new()
}

/// Hands back the host-reference token an opaque handle owns; a value of
/// any other variant carries no host object to unwrap.
pub fn unwrap_host(v: &TaggedValue) -> (r: Result<u64, BridgeError>)
    ensures
        match *v {
            TaggedValue::Custom(h) => r == Ok::<u64, BridgeError>(h.host_ref),
            _ => r matches Err(e) && e matches BridgeError::InvalidType(m)
                && m@ == "Cannot unwrap a value that is not a host-object handle"@,
        },
{
    match v {
        TaggedValue::Custom(h) => Ok(h.host_ref),
        _ => Err(BridgeError::InvalidType(
            String::from_str("Cannot unwrap a value that is not a host-object handle"),
        )),
    }
}

/// Attribute assignment on an engine value, which always fails: engine
/// values are immutable, for every attribute name and every value.
pub fn set_attribute(v: &TaggedValue, attr: &String) -> (r: Result<(), BridgeError>)
    ensures
        r is Err,
        r matches Err(e) && e matches BridgeError::InvalidOperation(m) && m@ == "Cannot set attribute "@
            + attr@ + " on an immutable engine value"@,
{
    let msg = String::from_str("Cannot set attribute ").concat(attr.as_str()).concat(
        " on an immutable engine value",
    );
    Err(BridgeError::InvalidOperation(msg))
}

/// The engine's type classification operation.
pub fn type_tag(v: &TaggedValue) -> (r: String)
    ensures
        r@ == type_tag_spec(*v),
{
    match v {
        TaggedValue::Integer(_) => String::from_str("Integer"),
        TaggedValue::Float(_) => String::from_str("Float"),
        TaggedValue::Text(_) => String::from_str("String"),
        TaggedValue::Bytes(_) => String::from_str("Bytes"),
        TaggedValue::Boolean(_) => String::from_str("Boolean"),
        TaggedValue::Null => String::from_str("Null"),
        TaggedValue::Undefined(_) => String::from_str("Undefined"),
        TaggedValue::Range(_, _) => String::from_str("Range"),
        TaggedValue::Tuple(_) => String::from_str("Tuple"),
        TaggedValue::Pair(_, _) => String::from_str("Pair"),
        TaggedValue::Named(_, _) => String::from_str("Named"),
        TaggedValue::Custom(_) => String::from_str("HostObject"),
    }
}

} // verus!


verus! {

impl TaggedValue {
    /// Typed extraction of the integer payload; fails with a typed error on
    /// any other variant.
    pub fn as_integer(&self) -> (r: Result<i64, BridgeError>)
        ensures
            match *self {
                TaggedValue::Integer(i) => r == Ok::<i64, BridgeError>(i),
                _ => r matches Err(e) && e matches BridgeError::InvalidType(m)
                    && m@ == "Object is not an Integer"@,
            },
    {
        match self {
            TaggedValue::Integer(i) => Ok(*i),
            _ => Err(BridgeError::InvalidType(String::from_str("Object is not an Integer"))),
        }
    }

    /// Typed extraction of the float payload, as its bit pattern; fails with
    /// a typed error on any other variant.
    pub fn as_float_bits(&self) -> (r: Result<u64, BridgeError>)
        ensures
            match *self {
                TaggedValue::Float(bits) => r == Ok::<u64, BridgeError>(bits),
                _ => r matches Err(e) && e matches BridgeError::InvalidType(m)
                    && m@ == "Object is not a Float"@,
            },
    {
        match self {
            TaggedValue::Float(bits) => Ok(*bits),
            _ => Err(BridgeError::InvalidType(String::from_str("Object is not a Float"))),
        }
    }

    /// Typed extraction of the text payload; fails with a typed error on any
    /// other variant.
    pub fn as_text(&self) -> (r: Result<String, BridgeError>)
        ensures
            match *self {
                TaggedValue::Text(s) => r matches Ok(t) && t@ == s@,
                _ => r matches Err(e) && e matches BridgeError::InvalidType(m)
                    && m@ == "Object is not a String"@,
            },
    {
        match self {
            TaggedValue::Text(s) => Ok(s.clone()),
            _ => Err(BridgeError::InvalidType(String::from_str("Object is not a String"))),
        }
    }

    /// Typed extraction of the byte-buffer payload; fails with a typed error
    /// on any other variant.
    pub fn as_byte_buffer(&self) -> (r: Result<Vec<u8>, BridgeError>)
        ensures
            match *self {
                TaggedValue::Bytes(bs) => r matches Ok(out) && out@ == bs@,
                _ => r matches Err(e) && e matches BridgeError::InvalidType(m)
                    && m@ == "Object is not a Bytes value"@,
            },
    {
        match self {
            TaggedValue::Bytes(bs) => Ok(bs.clone()),
            _ => Err(BridgeError::InvalidType(String::from_str("Object is not a Bytes value"))),
        }
    }

    /// Typed extraction of the boolean payload; fails with a typed error on
    /// any other variant.
    pub fn as_boolean(&self) -> (r: Result<bool, BridgeError>)
        ensures
            match *self {
                TaggedValue::Boolean(b) => r == Ok::<bool, BridgeError>(b),
                _ => r matches Err(e) && e matches BridgeError::InvalidType(m)
                    && m@ == "Object is not a Boolean"@,
            },
    {
        match self {
            TaggedValue::Boolean(b) => Ok(*b),
            _ => Err(BridgeError::InvalidType(String::from_str("Object is not a Boolean"))),
        }
    }

    /// A fresh copy of this value if it is a range; a typed error otherwise.
    pub fn as_range(&self) -> (r: Result<TaggedValue, BridgeError>)
        ensures
            match *self {
                TaggedValue::Range(s, e) => r == Ok::<TaggedValue, BridgeError>(
                    TaggedValue::Range(s, e),
                ),
                _ => r matches Err(e) && e matches BridgeError::InvalidType(m)
                    && m@ == "Object is not a Range"@,
            },
    {
        match self {
            TaggedValue::Range(s, e) => Ok(TaggedValue::Range(*s, *e)),
            _ => Err(BridgeError::InvalidType(String::from_str("Object is not a Range"))),
        }
    }

    /// A fresh copy of this value if it is a tuple; a typed error otherwise.
    pub fn as_tuple(&self) -> (r: Result<TaggedValue, BridgeError>)
        ensures
            match *self {
                TaggedValue::Tuple(_) => r matches Ok(v) && v.obs_eq(*self),
                _ => r matches Err(e) && e matches BridgeError::InvalidType(m)
                    && m@ == "Object is not a Tuple"@,
            },
    {
        match self {
            TaggedValue::Tuple(_) => Ok(self.deep_clone()),
            _ => Err(BridgeError::InvalidType(String::from_str("Object is not a Tuple"))),
        }
    }

    /// A fresh copy of this value if it is a key-value pair; a typed error
    /// otherwise.
    pub fn as_pair(&self) -> (r: Result<TaggedValue, BridgeError>)
        ensures
            match *self {
                TaggedValue::Pair(_, _) => r matches Ok(v) && v.obs_eq(*self),
                _ => r matches Err(e) && e matches BridgeError::InvalidType(m)
                    && m@ == "Object is not a Pair"@,
            },
    {
        match self {
            TaggedValue::Pair(_, _) => Ok(self.deep_clone()),
            _ => Err(BridgeError::InvalidType(String::from_str("Object is not a Pair"))),
        }
    }

    /// A fresh copy of this value if it is a named pair; a typed error
    /// otherwise.
    pub fn as_named(&self) -> (r: Result<TaggedValue, BridgeError>)
        ensures
            match *self {
                TaggedValue::Named(_, _) => r matches Ok(v) && v.obs_eq(*self),
                _ => r matches Err(e) && e matches BridgeError::InvalidType(m)
                    && m@ == "Object is not a Named"@,
            },
    {
        match self {
            TaggedValue::Named(_, _) => Ok(self.deep_clone()),
            _ => Err(BridgeError::InvalidType(String::from_str("Object is not a Named"))),
        }
    }
}

/// What the engine's length operation yields for each variant, when it is
/// defined: element count of a tuple, byte length of a text or byte buffer,
/// and the span of a range (wrapping, as the engine's fixed-width integers
/// do).
pub open spec fn len_spec(v: TaggedValue) -> Option<int> {
    match v {
        TaggedValue::Tuple(elems) => Some(elems@.len() as int),
        TaggedValue::Text(s) => Some((encode_utf8(s@).len() as usize) as int),
        TaggedValue::Bytes(bs) => Some(bs@.len() as int),
        TaggedValue::Range(s, e) => Some(e.wrapping_sub(s) as int),
        _ => None,
    }
}

/// The engine's length operation.  Defined for tuples, texts, byte buffers
/// and ranges; a typed error on every other variant, and on the lengths the
/// engine's integer cannot carry.
pub fn value_len(v: &TaggedValue) -> (r: Result<TaggedValue, BridgeError>)
    ensures
        match len_spec(*v) {
            Some(n) => {
                if i64::MIN <= n <= i64::MAX {
                    r == Ok::<TaggedValue, BridgeError>(TaggedValue::Integer(n as i64))
                } else {
                    r matches Err(e) && e matches BridgeError::InvalidOperation(m)
                        && m@ == "Length exceeds the engine integer range"@
                }
            },
            None => r matches Err(e) && e matches BridgeError::InvalidOperation(m)
                && m@ == "len() not supported for this value"@,
        },
{
    match v {
        TaggedValue::Tuple(elems) => {
            let n = elems.len();
            if (n as u64) <= 9223372036854775807u64 {
                Ok(TaggedValue::Integer(n as i64))
            } else {
                Err(BridgeError::InvalidOperation(
                    String::from_str("Length exceeds the engine integer range"),
                ))
            }
        },
        TaggedValue::Text(s) => {
            let n = s.as_str().len();
            if (n as u64) <= 9223372036854775807u64 {
                Ok(TaggedValue::Integer(n as i64))
            } else {
                Err(BridgeError::InvalidOperation(
                    String::from_str("Length exceeds the engine integer range"),
                ))
            }
        },
        TaggedValue::Bytes(bs) => {
            let n = bs.len();
            if (n as u64) <= 9223372036854775807u64 {
                Ok(TaggedValue::Integer(n as i64))
            } else {
                Err(BridgeError::InvalidOperation(
                    String::from_str("Length exceeds the engine integer range"),
                ))
            }
        },
        TaggedValue::Range(s, e) => Ok(TaggedValue::Integer(e.wrapping_sub(*s))),
        _ => Err(BridgeError::InvalidOperation(
            String::from_str("len() not supported for this value"),
        )),
    }
}

/// The engine's indexing operation: an element of a tuple, a one-character
/// text from a text, a one-byte buffer from a byte buffer; a typed error on
/// out-of-bounds indices and on every other variant.  Text indexing counts
/// characters.
pub fn value_at(v: &TaggedValue, index: i64) -> (r: Result<TaggedValue, BridgeError>)
    ensures
        match *v {
            TaggedValue::Tuple(elems) => {
                if 0 <= index < elems@.len() {
                    r matches Ok(out) && out.obs_eq(elems@[index as int])
                } else {
                    r matches Err(e) && e matches BridgeError::InvalidOperation(m)
                        && m@ == "Index out of bounds"@
                }
            },
            TaggedValue::Text(s) => {
                if 0 <= index < s@.len() {
                    r matches Ok(out) && out matches TaggedValue::Text(t) && t@ == seq![
                        s@[index as int],
                    ]
                } else {
                    r matches Err(e) && e matches BridgeError::InvalidOperation(m)
                        && m@ == "Index out of bounds"@
                }
            },
            TaggedValue::Bytes(bs) => {
                if 0 <= index < bs@.len() {
                    r matches Ok(out) && out matches TaggedValue::Bytes(b) && b@ == seq![
                        bs@[index as int],
                    ]
                } else {
                    r matches Err(e) && e matches BridgeError::InvalidOperation(m)
                        && m@ == "Index out of bounds"@
                }
            },
            _ => r matches Err(e) && e matches BridgeError::InvalidOperation(m)
                && m@ == "at() not supported for this value"@,
        },
{
    match v {
        TaggedValue::Tuple(elems) => {
            if 0 <= index && (index as u64) < (elems.len() as u64) {
                Ok(elems[index as usize].deep_clone())
            } else {
                Err(BridgeError::InvalidOperation(String::from_str("Index out of bounds")))
            }
        },
        TaggedValue::Text(s) => {
            let n = s.as_str().unicode_len();
            if 0 <= index && (index as u64) < (n as u64) {
                let piece = s.as_str().substring_char(index as usize, (index as usize) + 1);
                proof {
                    assert(piece@ =~= seq![s@[index as int]]);
                }
                Ok(TaggedValue::Text(piece.to_string()))
            } else {
                Err(BridgeError::InvalidOperation(String::from_str("Index out of bounds")))
            }
        },
        TaggedValue::Bytes(bs) => {
            if 0 <= index && (index as u64) < (bs.len() as u64) {
                let mut one: Vec<u8> = Vec::new();
                one.push(bs[index as usize]);
                proof {
                    assert(one@ =~= seq![bs@[index as int]]);
                }
                Ok(TaggedValue::Bytes(one))
            } else {
                Err(BridgeError::InvalidOperation(String::from_str("Index out of bounds")))
            }
        },
        _ => Err(BridgeError::InvalidOperation(
            String::from_str("at() not supported for this value"),
        )),
    }
}

/// The engine's key-of operation: the key of a pair or named pair; a typed
/// error on every other variant.
pub fn value_key_of(v: &TaggedValue) -> (r: Result<TaggedValue, BridgeError>)
    ensures
        match *v {
            TaggedValue::Pair(k, _) => r matches Ok(out) && out.obs_eq(*k),
            TaggedValue::Named(k, _) => r matches Ok(out) && out.obs_eq(*k),
            _ => r matches Err(e) && e matches BridgeError::InvalidOperation(m)
                && m@ == "key_of() not supported for this value"@,
        },
{
    match v {
        TaggedValue::Pair(k, _) => Ok(k.deep_clone()),
        TaggedValue::Named(k, _) => Ok(k.deep_clone()),
        _ => Err(BridgeError::InvalidOperation(
            String::from_str("key_of() not supported for this value"),
        )),
    }
}

/// The engine's value-of operation: the value of a pair or named pair, and
/// the reason text of an undefined value (empty when it has none); a typed
/// error on every other variant.
pub fn value_value_of(v: &TaggedValue) -> (r: Result<TaggedValue, BridgeError>)
    ensures
        match *v {
            TaggedValue::Pair(_, w) => r matches Ok(out) && out.obs_eq(*w),
            TaggedValue::Named(_, w) => r matches Ok(out) && out.obs_eq(*w),
            TaggedValue::Undefined(reason) => match reason {
                Option::Some(t) => r matches Ok(out) && out matches TaggedValue::Text(s) && s@
                    == t@,
                Option::None => r matches Ok(out) && out matches TaggedValue::Text(s) && s@
                    == Seq::<char>::empty(),
            },
            _ => r matches Err(e) && e matches BridgeError::InvalidOperation(m)
                && m@ == "value_of() not supported for this value"@,
        },
{
    match v {
        TaggedValue::Pair(_, w) => Ok(w.deep_clone()),
        TaggedValue::Named(_, w) => Ok(w.deep_clone()),
        TaggedValue::Undefined(reason) => match reason {
            Option::Some(t) => Ok(TaggedValue::Text(t.clone())),
            Option::None => Ok(TaggedValue::Text(String::new())),
        },
        _ => Err(BridgeError::InvalidOperation(
            String::from_str("value_of() not supported for this value"),
        )),
    }
}

} // verus!

verus! {

/// Absolute value of an engine integer, as a mathematical integer.
pub open spec fn abs_int(a: int) -> int {
    if a < 0 {
        -a
    } else {
        a
    }
}

/// Truncating division, as the engine's integer division rounds: towards
/// zero.
pub open spec fn div_trunc(a: int, b: int) -> int {
    if (a < 0) == (b < 0) {
        abs_int(a) / abs_int(b)
    } else {
        -(abs_int(a) / abs_int(b))
    }
}

/// Truncating remainder: the sign follows the dividend.
pub open spec fn rem_trunc(a: int, b: int) -> int {
    if a < 0 {
        -(abs_int(a) % abs_int(b))
    } else {
        abs_int(a) % abs_int(b)
    }
}

/// The magnitude of an engine integer, exactly.
fn int_magnitude(a: i64) -> (m: u64)
    ensures
        m as int == abs_int(a as int),
{
    if a >= 0 {
        a as u64
    } else {
        ((-(a + 1)) as u64) + 1
    }
}

/// The engine's ordering comparison, less-than.  Defined on two integers;
/// an operand pair involving a float belongs to the host float unit, and
/// every other pair is rejected as the engine does.
pub fn value_lt(a: &TaggedValue, b: &TaggedValue) -> (r: Result<bool, BridgeError>)
    ensures
        match (*a, *b) {
            (TaggedValue::Integer(x), TaggedValue::Integer(y)) => r == Ok::<bool, BridgeError>(
                x < y,
            ),
            (TaggedValue::Float(_), TaggedValue::Float(_))
            | (TaggedValue::Integer(_), TaggedValue::Float(_))
            | (TaggedValue::Float(_), TaggedValue::Integer(_)) => r matches Err(e) && e matches
                BridgeError::InvalidOperation(m) && m@ == float_unit_text(),
            _ => r matches Err(e) && e matches BridgeError::InvalidOperation(m) && m@
                == "Invalid binary lt operation"@,
        },
{
    match (a, b) {
        (TaggedValue::Integer(x), TaggedValue::Integer(y)) => Ok(*x < *y),
        (TaggedValue::Float(_), TaggedValue::Float(_)) => Err(float_unit_error()),
        (TaggedValue::Integer(_), TaggedValue::Float(_)) => Err(float_unit_error()),
        (TaggedValue::Float(_), TaggedValue::Integer(_)) => Err(float_unit_error()),
        _ => Err(BridgeError::InvalidOperation(
            String::from_str("Invalid binary lt operation"),
        )),
    }
}

/// The engine's ordering comparison, greater-than, with the same domain as
/// less-than.
pub fn value_gt(a: &TaggedValue, b: &TaggedValue) -> (r: Result<bool, BridgeError>)
    ensures
        match (*a, *b) {
            (TaggedValue::Integer(x), TaggedValue::Integer(y)) => r == Ok::<bool, BridgeError>(
                x > y,
            ),
            (TaggedValue::Float(_), TaggedValue::Float(_))
            | (TaggedValue::Integer(_), TaggedValue::Float(_))
            | (TaggedValue::Float(_), TaggedValue::Integer(_)) => r matches Err(e) && e matches
                BridgeError::InvalidOperation(m) && m@ == float_unit_text(),
            _ => r matches Err(e) && e matches BridgeError::InvalidOperation(m) && m@
                == "Invalid binary gt operation"@,
        },
{
    match (a, b) {
        (TaggedValue::Integer(x), TaggedValue::Integer(y)) => Ok(*x > *y),
        (TaggedValue::Float(_), TaggedValue::Float(_)) => Err(float_unit_error()),
        (TaggedValue::Integer(_), TaggedValue::Float(_)) => Err(float_unit_error()),
        (TaggedValue::Float(_), TaggedValue::Integer(_)) => Err(float_unit_error()),
        _ => Err(BridgeError::InvalidOperation(
            String::from_str("Invalid binary gt operation"),
        )),
    }
}

/// The text of the error reported when an operand pair needs the host
/// runtime's float unit: float arithmetic is performed where floats may
/// live, not in this layer.
pub open spec fn float_unit_text() -> Seq<char> {
    "Float arithmetic is delegated to the host float unit"@
}

fn float_unit_error() -> (e: BridgeError)
    ensures
        e matches BridgeError::InvalidOperation(m) && m@ == float_unit_text(),
{
    BridgeError::InvalidOperation(
        String::from_str("Float arithmetic is delegated to the host float unit"),
    )
}

/// Whether an operand pair of a numeric operation involves a float, so that
/// its result belongs to the host float unit.
pub open spec fn needs_float_unit(a: TaggedValue, b: TaggedValue) -> bool {
    ||| a is Float && b is Float
    ||| a is Integer && b is Float
    ||| a is Float && b is Integer
}

/// What the engine's addition yields: wrapping integer addition,
/// concatenation of texts, byte buffers and tuples, componentwise wrapping
/// addition of ranges; a tuple added to a non-tuple yields an undefined
/// value carrying a reason, as the engine's tuple addition does; a pair
/// involving a float belongs to the float unit; everything else is
/// rejected.
pub open spec fn add_spec(a: TaggedValue, b: TaggedValue, r: Result<TaggedValue, BridgeError>) -> bool {
    if needs_float_unit(a, b) {
        r matches Err(e) && e matches BridgeError::InvalidOperation(m) && m@ == float_unit_text()
    } else {
        match (a, b) {
            (TaggedValue::Integer(x), TaggedValue::Integer(y)) => r == Ok::<
                TaggedValue,
                BridgeError,
            >(TaggedValue::Integer(x.wrapping_add(y))),
            (TaggedValue::Text(x), TaggedValue::Text(y)) => r matches Ok(v) && v matches
                TaggedValue::Text(t) && t@ == x@ + y@,
            (TaggedValue::Bytes(x), TaggedValue::Bytes(y)) => r matches Ok(v) && v matches
                TaggedValue::Bytes(out) && out@ == x@ + y@,
            (TaggedValue::Range(x0, x1), TaggedValue::Range(y0, y1)) => r == Ok::<
                TaggedValue,
                BridgeError,
            >(TaggedValue::Range(x0.wrapping_add(y0), x1.wrapping_add(y1))),
            (TaggedValue::Tuple(xs), TaggedValue::Tuple(ys)) => r matches Ok(v) && v matches
                TaggedValue::Tuple(zs) && {
                &&& zs@.len() == xs@.len() + ys@.len()
                &&& forall|i: int| 0 <= i < xs@.len() ==> (#[trigger] zs@[i]).obs_eq(xs@[i])
                &&& forall|i: int|
                    xs@.len() <= i < zs@.len() ==> (#[trigger] zs@[i]).obs_eq(
                        ys@[i - xs@.len()],
                    )
            },
            (TaggedValue::Tuple(_), _) => r matches Ok(v) && v matches TaggedValue::Undefined(u)
                && u matches Some(m) && m@ == "Cannot add a tuple with a value of another kind"@,
            _ => r matches Err(e) && e matches BridgeError::InvalidOperation(m) && m@
                == "Invalid binary add operation"@,
        }
    }
}

/// The engine's addition.
pub fn value_add(a: &TaggedValue, b: &TaggedValue) -> (r: Result<TaggedValue, BridgeError>)
    ensures
        add_spec(*a, *b, r),
{
    if matches!((a, b), (TaggedValue::Float(_), TaggedValue::Float(_)))
        || matches!((a, b), (TaggedValue::Integer(_), TaggedValue::Float(_)))
        || matches!((a, b), (TaggedValue::Float(_), TaggedValue::Integer(_))) {
        return Err(float_unit_error());
    }
    match (a, b) {
        (TaggedValue::Integer(x), TaggedValue::Integer(y)) => Ok(
            TaggedValue::Integer(x.wrapping_add(*y)),
        ),
        (TaggedValue::Text(x), TaggedValue::Text(y)) => Ok(
            TaggedValue::Text(x.clone().concat(y.as_str())),
        ),
        (TaggedValue::Bytes(x), TaggedValue::Bytes(y)) => {
            let mut out = x.clone();
            let mut idx: usize = 0;
            while idx < y.len()
                invariant
                    idx <= y@.len(),
                    out@ == x@ + y@.subrange(0, idx as int),
                decreases y@.len() - idx,
            {
                out.push(y[idx]);
                proof {
                    assert(out@ =~= x@ + y@.subrange(0, idx + 1 as int));
                }
                idx = idx + 1;
            }
            proof {
                assert(y@.subrange(0, y@.len() as int) =~= y@);
            }
            Ok(TaggedValue::Bytes(out))
        },
        (TaggedValue::Range(x0, x1), TaggedValue::Range(y0, y1)) => Ok(
            TaggedValue::Range(x0.wrapping_add(*y0), x1.wrapping_add(*y1)),
        ),
        (TaggedValue::Tuple(xs), TaggedValue::Tuple(ys)) => {
            let mut zs: Vec<TaggedValue> = Vec::new();
            let mut idx: usize = 0;
            while idx < xs.len()
                invariant
                    idx <= xs@.len(),
                    zs@.len() == idx,
                    forall|j: int| 0 <= j < idx ==> (#[trigger] zs@[j]).obs_eq(xs@[j]),
                decreases xs@.len() - idx,
            {
                let e = xs[idx].deep_clone();
                zs.push(e);
                idx = idx + 1;
            }
            let first = xs.len();
            let mut jdx: usize = 0;
            while jdx < ys.len()
                invariant
                    first == xs@.len(),
                    jdx <= ys@.len(),
                    zs@.len() == first + jdx,
                    forall|j: int| 0 <= j < first ==> (#[trigger] zs@[j]).obs_eq(xs@[j]),
                    forall|j: int|
                        first <= j < zs@.len() ==> (#[trigger] zs@[j]).obs_eq(
                            ys@[j - first],
                        ),
                decreases ys@.len() - jdx,
            {
                let e = ys[jdx].deep_clone();
                zs.push(e);
                jdx = jdx + 1;
            }
            Ok(TaggedValue::Tuple(zs))
        },
        (TaggedValue::Tuple(_), _) => Ok(
            TaggedValue::Undefined(
                Option::Some(String::from_str("Cannot add a tuple with a value of another kind")),
            ),
        ),
        _ => Err(BridgeError::InvalidOperation(
            String::from_str("Invalid binary add operation"),
        )),
    }
}

/// The engine's subtraction: wrapping on two integers, the float unit's job
/// when a float is involved, rejected otherwise.
pub fn value_sub(a: &TaggedValue, b: &TaggedValue) -> (r: Result<TaggedValue, BridgeError>)
    ensures
        needs_float_unit(*a, *b) ==> (r matches Err(e) && e matches BridgeError::InvalidOperation(
            m,
        ) && m@ == float_unit_text()),
        !needs_float_unit(*a, *b) ==> match (*a, *b) {
            (TaggedValue::Integer(x), TaggedValue::Integer(y)) => r == Ok::<
                TaggedValue,
                BridgeError,
            >(TaggedValue::Integer(x.wrapping_sub(y))),
            _ => r matches Err(e) && e matches BridgeError::InvalidOperation(m) && m@
                == "Invalid binary sub operation"@,
        },
{
    match (a, b) {
        (TaggedValue::Integer(x), TaggedValue::Integer(y)) => Ok(
            TaggedValue::Integer(x.wrapping_sub(*y)),
        ),
        (TaggedValue::Float(_), TaggedValue::Float(_)) => Err(float_unit_error()),
        (TaggedValue::Integer(_), TaggedValue::Float(_)) => Err(float_unit_error()),
        (TaggedValue::Float(_), TaggedValue::Integer(_)) => Err(float_unit_error()),
        _ => Err(BridgeError::InvalidOperation(
            String::from_str("Invalid binary sub operation"),
        )),
    }
}

/// The engine's multiplication: wrapping on two integers, the float unit's
/// job when a float is involved, rejected otherwise.
pub fn value_mul(a: &TaggedValue, b: &TaggedValue) -> (r: Result<TaggedValue, BridgeError>)
    ensures
        needs_float_unit(*a, *b) ==> (r matches Err(e) && e matches BridgeError::InvalidOperation(
            m,
        ) && m@ == float_unit_text()),
        !needs_float_unit(*a, *b) ==> match (*a, *b) {
            (TaggedValue::Integer(x), TaggedValue::Integer(y)) => r == Ok::<
                TaggedValue,
                BridgeError,
            >(TaggedValue::Integer(x.wrapping_mul(y))),
            _ => r matches Err(e) && e matches BridgeError::InvalidOperation(m) && m@
                == "Invalid binary mul operation"@,
        },
{
    match (a, b) {
        (TaggedValue::Integer(x), TaggedValue::Integer(y)) => Ok(
            TaggedValue::Integer(x.wrapping_mul(*y)),
        ),
        (TaggedValue::Float(_), TaggedValue::Float(_)) => Err(float_unit_error()),
        (TaggedValue::Integer(_), TaggedValue::Float(_)) => Err(float_unit_error()),
        (TaggedValue::Float(_), TaggedValue::Integer(_)) => Err(float_unit_error()),
        _ => Err(BridgeError::InvalidOperation(
            String::from_str("Invalid binary mul operation"),
        )),
    }
}

} // verus!

verus! {

/// The engine's integer division result, wrapping on the one overflowing
/// operand pair as the engine's fixed-width integers do.
pub open spec fn div_wrap(x: i64, y: i64) -> int {
    if x == i64::MIN && y == -1 {
        i64::MIN as int
    } else {
        div_trunc(x as int, y as int)
    }
}

/// The engine's division: truncating integer division, division by zero
/// rejected; the float unit's job when a float is involved; rejected
/// otherwise.
pub fn value_div(a: &TaggedValue, b: &TaggedValue) -> (r: Result<TaggedValue, BridgeError>)
    ensures
        needs_float_unit(*a, *b) ==> (r matches Err(e) && e matches BridgeError::InvalidOperation(
            m,
        ) && m@ == float_unit_text()),
        !needs_float_unit(*a, *b) ==> match (*a, *b) {
            (TaggedValue::Integer(x), TaggedValue::Integer(y)) => {
                if y == 0 {
                    r matches Err(e) && e matches BridgeError::InvalidOperation(m) && m@
                        == "Division by zero"@
                } else {
                    r == Ok::<TaggedValue, BridgeError>(
                        TaggedValue::Integer(div_wrap(x, y) as i64),
                    )
                }
            },
            _ => r matches Err(e) && e matches BridgeError::InvalidOperation(m) && m@
                == "Invalid binary div operation"@,
        },
{
    match (a, b) {
        (TaggedValue::Integer(x), TaggedValue::Integer(y)) => {
            if *y == 0 {
                return Err(BridgeError::InvalidOperation(String::from_str("Division by zero")));
            }
            if *x == i64::MIN && *y == -1 {
                return Ok(TaggedValue::Integer(i64::MIN));
            }
            let mx = int_magnitude(*x);
            let my = int_magnitude(*y);
            let q = mx / my;
            proof {
                assert((mx as int) / (my as int) <= mx as int) by (nonlinear_arith)
                    requires
                        my >= 1,
                        mx >= 0,
                ;
            }
            if (*x < 0) == (*y < 0) {
                if my == 1 {
                    proof {
                        assert((mx as int) / (my as int) == mx as int) by (nonlinear_arith)
                            requires
                                my == 1,
                        ;
                    }
                    Ok(TaggedValue::Integer(q as i64))
                } else {
                    proof {
                        assert((mx as int) / (my as int) <= (mx as int) / 2) by (nonlinear_arith)
                            requires
                                my >= 2,
                                mx >= 0,
                        ;
                    }
                    Ok(TaggedValue::Integer(q as i64))
                }
            } else {
                if q >= 0x8000000000000000u64 {
                    proof {
                        assert(q == 0x8000000000000000u64);
                    }
                    Ok(TaggedValue::Integer(i64::MIN))
                } else {
                    Ok(TaggedValue::Integer(-(q as i64)))
                }
            }
        },
        (TaggedValue::Float(_), TaggedValue::Float(_)) => Err(float_unit_error()),
        (TaggedValue::Integer(_), TaggedValue::Float(_)) => Err(float_unit_error()),
        (TaggedValue::Float(_), TaggedValue::Integer(_)) => Err(float_unit_error()),
        _ => Err(BridgeError::InvalidOperation(
            String::from_str("Invalid binary div operation"),
        )),
    }
}

/// The engine's remainder: truncating (the sign follows the dividend),
/// remainder by zero rejected; the float unit's job when a float is
/// involved; rejected otherwise.
pub fn value_mod(a: &TaggedValue, b: &TaggedValue) -> (r: Result<TaggedValue, BridgeError>)
    ensures
        needs_float_unit(*a, *b) ==> (r matches Err(e) && e matches BridgeError::InvalidOperation(
            m,
        ) && m@ == float_unit_text()),
        !needs_float_unit(*a, *b) ==> match (*a, *b) {
            (TaggedValue::Integer(x), TaggedValue::Integer(y)) => {
                if y == 0 {
                    r matches Err(e) && e matches BridgeError::InvalidOperation(m) && m@
                        == "Division by zero"@
                } else {
                    r == Ok::<TaggedValue, BridgeError>(
                        TaggedValue::Integer(rem_trunc(x as int, y as int) as i64),
                    )
                }
            },
            _ => r matches Err(e) && e matches BridgeError::InvalidOperation(m) && m@
                == "Invalid binary mod operation"@,
        },
{
    match (a, b) {
        (TaggedValue::Integer(x), TaggedValue::Integer(y)) => {
            if *y == 0 {
                return Err(BridgeError::InvalidOperation(String::from_str("Division by zero")));
            }
            let mx = int_magnitude(*x);
            let my = int_magnitude(*y);
            let m = mx % my;
            proof {
                assert((mx as int) % (my as int) <= mx as int && (mx as int) % (my as int) < (
                my as int)) by (nonlinear_arith)
                    requires
                        my >= 1,
                        mx >= 0,
                ;
            }
            if *x < 0 {
                Ok(TaggedValue::Integer(-(m as i64)))
            } else {
                Ok(TaggedValue::Integer(m as i64))
            }
        },
        (TaggedValue::Float(_), TaggedValue::Float(_)) => Err(float_unit_error()),
        (TaggedValue::Integer(_), TaggedValue::Float(_)) => Err(float_unit_error()),
        (TaggedValue::Float(_), TaggedValue::Integer(_)) => Err(float_unit_error()),
        _ => Err(BridgeError::InvalidOperation(
            String::from_str("Invalid binary mod operation"),
        )),
    }
}

/// The engine's bitwise/logical conjunction: bitwise on two integers,
/// logical on two booleans, rejected otherwise.
pub fn value_bit_and(a: &TaggedValue, b: &TaggedValue) -> (r: Result<TaggedValue, BridgeError>)
    ensures
        match (*a, *b) {
            (TaggedValue::Integer(x), TaggedValue::Integer(y)) => r == Ok::<
                TaggedValue,
                BridgeError,
            >(TaggedValue::Integer(x & y)),
            (TaggedValue::Boolean(x), TaggedValue::Boolean(y)) => r == Ok::<
                TaggedValue,
                BridgeError,
            >(TaggedValue::Boolean(x && y)),
            _ => r matches Err(e) && e matches BridgeError::InvalidOperation(m) && m@
                == "Invalid binary and operation"@,
        },
{
    match (a, b) {
        (TaggedValue::Integer(x), TaggedValue::Integer(y)) => Ok(TaggedValue::Integer(*x & *y)),
        (TaggedValue::Boolean(x), TaggedValue::Boolean(y)) => Ok(TaggedValue::Boolean(*x && *y)),
        _ => Err(BridgeError::InvalidOperation(
            String::from_str("Invalid binary and operation"),
        )),
    }
}

/// The engine's bitwise/logical disjunction: bitwise on two integers,
/// logical on two booleans, rejected otherwise.
pub fn value_bit_or(a: &TaggedValue, b: &TaggedValue) -> (r: Result<TaggedValue, BridgeError>)
    ensures
        match (*a, *b) {
            (TaggedValue::Integer(x), TaggedValue::Integer(y)) => r == Ok::<
                TaggedValue,
                BridgeError,
            >(TaggedValue::Integer(x | y)),
            (TaggedValue::Boolean(x), TaggedValue::Boolean(y)) => r == Ok::<
                TaggedValue,
                BridgeError,
            >(TaggedValue::Boolean(x || y)),
            _ => r matches Err(e) && e matches BridgeError::InvalidOperation(m) && m@
                == "Invalid binary or operation"@,
        },
{
    match (a, b) {
        (TaggedValue::Integer(x), TaggedValue::Integer(y)) => Ok(TaggedValue::Integer(*x | *y)),
        (TaggedValue::Boolean(x), TaggedValue::Boolean(y)) => Ok(TaggedValue::Boolean(*x || *y)),
        _ => Err(BridgeError::InvalidOperation(
            String::from_str("Invalid binary or operation"),
        )),
    }
}

/// The engine's bitwise exclusive-or: bitwise on two integers, rejected
/// otherwise.
pub fn value_bit_xor(a: &TaggedValue, b: &TaggedValue) -> (r: Result<TaggedValue, BridgeError>)
    ensures
        match (*a, *b) {
            (TaggedValue::Integer(x), TaggedValue::Integer(y)) => r == Ok::<
                TaggedValue,
                BridgeError,
            >(TaggedValue::Integer(x ^ y)),
            _ => r matches Err(e) && e matches BridgeError::InvalidOperation(m) && m@
                == "Invalid binary xor operation"@,
        },
{
    match (a, b) {
        (TaggedValue::Integer(x), TaggedValue::Integer(y)) => Ok(TaggedValue::Integer(*x ^ *y)),
        _ => Err(BridgeError::InvalidOperation(
            String::from_str("Invalid binary xor operation"),
        )),
    }
}

/// The engine's left shift on two integers: defined for shift amounts from
/// zero up to the integer width, rejected for the rest and for every other
/// operand pair.
pub fn value_shl(a: &TaggedValue, b: &TaggedValue) -> (r: Result<TaggedValue, BridgeError>)
    ensures
        match (*a, *b) {
            (TaggedValue::Integer(x), TaggedValue::Integer(y)) => {
                if 0 <= y < 64 {
                    r == Ok::<TaggedValue, BridgeError>(TaggedValue::Integer(x << y))
                } else {
                    r matches Err(e) && e matches BridgeError::InvalidOperation(m) && m@
                        == "Shift amount out of range"@
                }
            },
            _ => r matches Err(e) && e matches BridgeError::InvalidOperation(m) && m@
                == "Invalid binary shl operation"@,
        },
{
    match (a, b) {
        (TaggedValue::Integer(x), TaggedValue::Integer(y)) => {
            if 0 <= *y && *y < 64 {
                Ok(TaggedValue::Integer(*x << *y))
            } else {
                Err(BridgeError::InvalidOperation(String::from_str("Shift amount out of range")))
            }
        },
        _ => Err(BridgeError::InvalidOperation(
            String::from_str("Invalid binary shl operation"),
        )),
    }
}

/// The engine's arithmetic right shift on two integers, with the same
/// domain as the left shift.
pub fn value_shr(a: &TaggedValue, b: &TaggedValue) -> (r: Result<TaggedValue, BridgeError>)
    ensures
        match (*a, *b) {
            (TaggedValue::Integer(x), TaggedValue::Integer(y)) => {
                if 0 <= y < 64 {
                    r == Ok::<TaggedValue, BridgeError>(TaggedValue::Integer(x >> y))
                } else {
                    r matches Err(e) && e matches BridgeError::InvalidOperation(m) && m@
                        == "Shift amount out of range"@
                }
            },
            _ => r matches Err(e) && e matches BridgeError::InvalidOperation(m) && m@
                == "Invalid binary shr operation"@,
        },
{
    match (a, b) {
        (TaggedValue::Integer(x), TaggedValue::Integer(y)) => {
            if 0 <= *y && *y < 64 {
                Ok(TaggedValue::Integer(*x >> *y))
            } else {
                Err(BridgeError::InvalidOperation(String::from_str("Shift amount out of range")))
            }
        },
        _ => Err(BridgeError::InvalidOperation(
            String::from_str("Invalid binary shr operation"),
        )),
    }
}

/// The engine's unary negation: wrapping on an integer (the minimum value
/// negates to itself), the float unit's job on a float, rejected otherwise.
pub fn value_neg(a: &TaggedValue) -> (r: Result<TaggedValue, BridgeError>)
    ensures
        match *a {
            TaggedValue::Integer(x) => r == Ok::<TaggedValue, BridgeError>(
                TaggedValue::Integer(if x == i64::MIN { i64::MIN } else { (-(x as int)) as i64 }),
            ),
            TaggedValue::Float(_) => r matches Err(e) && e matches BridgeError::InvalidOperation(
                m,
            ) && m@ == float_unit_text(),
            _ => r matches Err(e) && e matches BridgeError::InvalidOperation(m) && m@
                == "Invalid unary neg operation"@,
        },
{
    match a {
        TaggedValue::Integer(x) => {
            if *x == i64::MIN {
                Ok(TaggedValue::Integer(i64::MIN))
            } else {
                Ok(TaggedValue::Integer(-*x))
            }
        },
        TaggedValue::Float(_) => Err(float_unit_error()),
        _ => Err(BridgeError::InvalidOperation(
            String::from_str("Invalid unary neg operation"),
        )),
    }
}

/// The engine's unary plus, which is the absolute value: wrapping on an
/// integer (the minimum value stays itself), the float unit's job on a
/// float, rejected otherwise.
pub fn value_abs(a: &TaggedValue) -> (r: Result<TaggedValue, BridgeError>)
    ensures
        match *a {
            TaggedValue::Integer(x) => r == Ok::<TaggedValue, BridgeError>(
                TaggedValue::Integer(
                    if x == i64::MIN {
                        i64::MIN
                    } else {
                        abs_int(x as int) as i64
                    },
                ),
            ),
            TaggedValue::Float(_) => r matches Err(e) && e matches BridgeError::InvalidOperation(
                m,
            ) && m@ == float_unit_text(),
            _ => r matches Err(e) && e matches BridgeError::InvalidOperation(m) && m@
                == "Invalid unary plus operation"@,
        },
{
    match a {
        TaggedValue::Integer(x) => {
            if *x == i64::MIN {
                Ok(TaggedValue::Integer(i64::MIN))
            } else if *x < 0 {
                Ok(TaggedValue::Integer(-*x))
            } else {
                Ok(TaggedValue::Integer(*x))
            }
        },
        TaggedValue::Float(_) => Err(float_unit_error()),
        _ => Err(BridgeError::InvalidOperation(
            String::from_str("Invalid unary plus operation"),
        )),
    }
}

/// The engine's unary not: logical on a boolean, bitwise on an integer,
/// rejected otherwise.
pub fn value_not(a: &TaggedValue) -> (r: Result<TaggedValue, BridgeError>)
    ensures
        match *a {
            TaggedValue::Boolean(x) => r == Ok::<TaggedValue, BridgeError>(
                TaggedValue::Boolean(!x),
            ),
            TaggedValue::Integer(x) => r == Ok::<TaggedValue, BridgeError>(
                TaggedValue::Integer(!x),
            ),
            _ => r matches Err(e) && e matches BridgeError::InvalidOperation(m) && m@
                == "Invalid unary not operation"@,
        },
{
    match a {
        TaggedValue::Boolean(x) => Ok(TaggedValue::Boolean(!*x)),
        TaggedValue::Integer(x) => Ok(TaggedValue::Integer(!*x)),
        _ => Err(BridgeError::InvalidOperation(
            String::from_str("Invalid unary not operation"),
        )),
    }
}

} // verus!

verus! {

/// The magnitude of a power is the power of the magnitude.
proof fn lemma_abs_pow(x: int, e: nat)
    ensures
        abs_int(pow(x, e)) == pow(abs_int(x), e),
    decreases e,
{
    if e == 0 {
        vstd::arithmetic::power::lemma_pow0(x);
        vstd::arithmetic::power::lemma_pow0(abs_int(x));
    } else {
        let e1 = (e - 1) as nat;
        lemma_abs_pow(x, e1);
        lemma_pow_adds(x, e1, 1);
        lemma_pow1(x);
        lemma_pow_adds(abs_int(x), e1, 1);
        lemma_pow1(abs_int(x));
        assert(pow(x, e) == pow(x, e1) * x);
        assert(pow(abs_int(x), e) == pow(abs_int(x), e1) * abs_int(x));
        assert(abs_int(pow(x, e1) * x) == abs_int(pow(x, e1)) * abs_int(x)) by (nonlinear_arith);
    }
}

/// Once a power of a base of magnitude at least two has left the engine's
/// integer range, every later power stays out of it.
proof fn lemma_pow_out_of_range(x: int, k1: nat, e: nat)
    requires
        abs_int(x) >= 2,
        k1 <= e,
        !(i64::MIN <= pow(x, k1) <= i64::MAX),
    ensures
        !(i64::MIN <= pow(x, e) <= i64::MAX),
{
    let b = abs_int(x);
    lemma_abs_pow(x, k1);
    lemma_abs_pow(x, e);
    assert(pow(b, k1) >= 0x8000000000000000);
    if e > k1 {
        let d = (e - k1) as nat;
        lemma_pow_adds(b, k1, d);
        lemma_pow1(b);
        vstd::arithmetic::power::lemma_pow_increases(b as nat, 1, d);
        assert(pow(b, d) >= 2);
        assert(pow(b, k1) * pow(b, d) >= 0x8000000000000000 * 2) by (nonlinear_arith)
            requires
                pow(b, k1) >= 0x8000000000000000,
                pow(b, d) >= 2,
        ;
    }
}

/// The alternating powers of negative one.
proof fn lemma_neg_one_pow(e: nat)
    ensures
        pow(-1, e) == if e % 2 == 0 {
            1int
        } else {
            -1int
        },
    decreases e,
{
    if e == 0 {
        vstd::arithmetic::power::lemma_pow0(-1);
    } else {
        let e1 = (e - 1) as nat;
        lemma_neg_one_pow(e1);
        lemma_pow_adds(-1, e1, 1);
        lemma_pow1(-1);
    }
}

/// The engine's exponentiation on two integers: the exact power when the
/// exponent is non-negative and the result fits the engine's integer,
/// rejected on a negative exponent and on overflow; the float unit's job
/// when a float is involved; rejected on every other operand pair.
pub fn value_pow(a: &TaggedValue, b: &TaggedValue) -> (r: Result<TaggedValue, BridgeError>)
    ensures
        needs_float_unit(*a, *b) ==> (r matches Err(e) && e matches BridgeError::InvalidOperation(
            m,
        ) && m@ == float_unit_text()),
        !needs_float_unit(*a, *b) ==> match (*a, *b) {
            (TaggedValue::Integer(x), TaggedValue::Integer(y)) => {
                if y < 0 {
                    r matches Err(e) && e matches BridgeError::InvalidOperation(m) && m@
                        == "Negative exponent in power operation"@
                } else if i64::MIN <= pow(x as int, y as nat) <= i64::MAX {
                    r == Ok::<TaggedValue, BridgeError>(
                        TaggedValue::Integer(pow(x as int, y as nat) as i64),
                    )
                } else {
                    r matches Err(e) && e matches BridgeError::InvalidOperation(m) && m@
                        == "Integer overflow in power operation"@
                }
            },
            _ => r matches Err(e) && e matches BridgeError::InvalidOperation(m) && m@
                == "Invalid binary pow operation"@,
        },
{
    match (a, b) {
        (TaggedValue::Integer(x), TaggedValue::Integer(y)) => {
            if *y < 0 {
                return Err(BridgeError::InvalidOperation(
                    String::from_str("Negative exponent in power operation"),
                ));
            }
            let e: u64 = *y as u64;
            if *x == 0 {
                proof {
                    vstd::arithmetic::power::lemma_pow0(0);
                    if e > 0 {
                        lemma0_pow(e as nat);
                    }
                }
                if e == 0 {
                    return Ok(TaggedValue::Integer(1));
                } else {
                    return Ok(TaggedValue::Integer(0));
                }
            }
            if *x == 1 {
                proof {
                    lemma1_pow(e as nat);
                    vstd::arithmetic::power::lemma_pow0(1);
                }
                return Ok(TaggedValue::Integer(1));
            }
            if *x == -1 {
                proof {
                    lemma_neg_one_pow(e as nat);
                }
                if e % 2 == 0 {
                    return Ok(TaggedValue::Integer(1));
                } else {
                    return Ok(TaggedValue::Integer(-1));
                }
            }
            let mut acc: i64 = 1;
            let mut k: u64 = 0;
            proof {
                vstd::arithmetic::power::lemma_pow0(*x as int);
            }
            while k < e
                invariant
                    *a == TaggedValue::Integer(*x),
                    *b == TaggedValue::Integer(*y),
                    *y >= 0,
                    e == *y as u64,
                    k <= e,
                    abs_int(*x as int) >= 2,
                    acc as int == pow(*x as int, k as nat),
                decreases e - k,
            {
                match acc.checked_mul(*x) {
                    Option::Some(next) => {
                        proof {
                            lemma_pow_adds(*x as int, k as nat, 1);
                            lemma_pow1(*x as int);
                        }
                        acc = next;
                        k = k + 1;
                    },
                    Option::None => {
                        proof {
                            lemma_pow_adds(*x as int, k as nat, 1);
                            lemma_pow1(*x as int);
                            lemma_pow_out_of_range(*x as int, (k + 1) as nat, e as nat);
                        }
                        return Err(BridgeError::InvalidOperation(
                            String::from_str("Integer overflow in power operation"),
                        ));
                    },
                }
            }
            Ok(TaggedValue::Integer(acc))
        },
        (TaggedValue::Float(_), TaggedValue::Float(_)) => Err(float_unit_error()),
        (TaggedValue::Integer(_), TaggedValue::Float(_)) => Err(float_unit_error()),
        (TaggedValue::Float(_), TaggedValue::Integer(_)) => Err(float_unit_error()),
        _ => Err(BridgeError::InvalidOperation(
            String::from_str("Invalid binary pow operation"),
        )),
    }
}

} // verus!

verus! {

/// Some element of the tuple is equal, by the engine's generic equality, to
/// the given value.
pub open spec fn tuple_has_equal(elems: Seq<TaggedValue>, x: TaggedValue) -> bool {
    exists|i: int| 0 <= i < elems.len() && eq_spec(#[trigger] elems[i], x)
}

/// The engine's containment operation: membership by generic equality for a
/// tuple, occurrence of a subsequence for texts and byte buffers, interval
/// membership and interval containment for ranges.  A range asked about a
/// float is the float unit's job; every remaining pair is rejected.
pub fn value_contains(a: &TaggedValue, b: &TaggedValue) -> (r: Result<bool, BridgeError>)
    ensures
        match (*a, *b) {
            (TaggedValue::Tuple(xs), _) => r == Ok::<bool, BridgeError>(
                tuple_has_equal(xs@, *b),
            ),
            (TaggedValue::Text(x), TaggedValue::Text(y)) => r == Ok::<bool, BridgeError>(
                crate::search::has_slice(x@, y@),
            ),
            (TaggedValue::Bytes(x), TaggedValue::Bytes(y)) => r == Ok::<bool, BridgeError>(
                crate::search::has_slice(x@, y@),
            ),
            (TaggedValue::Range(l, u), TaggedValue::Integer(x)) => r == Ok::<bool, BridgeError>(
                l <= x < u,
            ),
            (TaggedValue::Range(_, _), TaggedValue::Float(_)) => r matches Err(e) && e matches
                BridgeError::InvalidOperation(m) && m@ == float_unit_text(),
            (TaggedValue::Range(l, u), TaggedValue::Range(l2, u2)) => r == Ok::<
                bool,
                BridgeError,
            >(l2 >= l && u2 <= u),
            _ => r matches Err(e) && e matches BridgeError::InvalidOperation(m) && m@
                == "contains() not supported for these values"@,
        },
{
    match (a, b) {
        (TaggedValue::Tuple(xs), _) => {
            let mut idx: usize = 0;
            while idx < xs.len()
                invariant
                    *a == TaggedValue::Tuple(*xs),
                    idx <= xs@.len(),
                    forall|j: int| 0 <= j < idx ==> !eq_spec(#[trigger] xs@[j], *b),
                decreases xs@.len() - idx,
            {
                if value_equals(&xs[idx], b) {
                    proof {
                        assert(eq_spec(xs@[idx as int], *b));
                    }
                    return Ok(true);
                }
                idx = idx + 1;
            }
            Ok(false)
        },
        (TaggedValue::Text(x), TaggedValue::Text(y)) => Ok(
            crate::search::chars_contain(x.as_str(), y.as_str()),
        ),
        (TaggedValue::Bytes(x), TaggedValue::Bytes(y)) => Ok(crate::search::bytes_contain(x, y)),
        (TaggedValue::Range(l, u), TaggedValue::Integer(x)) => Ok(*l <= *x && *x < *u),
        (TaggedValue::Range(_, _), TaggedValue::Float(_)) => Err(float_unit_error()),
        (TaggedValue::Range(l, u), TaggedValue::Range(l2, u2)) => Ok(*l2 >= *l && *u2 <= *u),
        _ => Err(BridgeError::InvalidOperation(
            String::from_str("contains() not supported for these values"),
        )),
    }
}

/// The value bound to a key inside a tuple of attribute bindings, scanning
/// from position `i`: the first named pair or plain pair whose key is equal
/// to the lookup key, by the engine's generic equality.
pub open spec fn attr_scan(elems: Seq<TaggedValue>, key: TaggedValue, i: int) -> Option<
    TaggedValue,
>
    decreases elems.len() - i,
{
    if i < 0 || i >= elems.len() {
        Option::None
    } else {
        match elems[i] {
            TaggedValue::Named(k, v) => if eq_spec(*k, key) {
                Option::Some(*v)
            } else {
                attr_scan(elems, key, i + 1)
            },
            TaggedValue::Pair(k, v) => if eq_spec(*k, key) {
                Option::Some(*v)
            } else {
                attr_scan(elems, key, i + 1)
            },
            _ => attr_scan(elems, key, i + 1),
        }
    }
}

/// The engine's attribute lookup on a value: a tuple is scanned for the
/// first binding of the key; a named pair or plain pair is searched through
/// its value and then through its key; nothing else carries attributes.
pub open spec fn attr_find(c: TaggedValue, key: TaggedValue) -> Option<TaggedValue>
    decreases c,
{
    match c {
        TaggedValue::Tuple(elems) => attr_scan(elems@, key, 0),
        TaggedValue::Named(k, v) => match attr_find(*v, key) {
            Option::Some(found) => Option::Some(found),
            Option::None => attr_find(*k, key),
        },
        TaggedValue::Pair(k, v) => match attr_find(*v, key) {
            Option::Some(found) => Option::Some(found),
            Option::None => attr_find(*k, key),
        },
        _ => Option::None,
    }
}

/// The engine's attribute lookup operation: the value bound to the key, or
/// a typed error when the value carries no such attribute.
pub fn attr_lookup(c: &TaggedValue, key: &TaggedValue) -> (r: Result<TaggedValue, BridgeError>)
    ensures
        match attr_find(*c, *key) {
            Option::Some(v) => r matches Ok(out) && out.obs_eq(v),
            Option::None => r matches Err(e) && e matches BridgeError::InvalidOperation(m) && m@
                == "Attribute not found"@,
        },
    decreases *c,
{
    match c {
        TaggedValue::Tuple(elems) => {
            let mut idx: usize = 0;
            while idx < elems.len()
                invariant
                    *c == TaggedValue::Tuple(*elems),
                    idx <= elems@.len(),
                    attr_scan(elems@, *key, 0) == attr_scan(elems@, *key, idx as int),
                decreases elems@.len() - idx,
            {
                match &elems[idx] {
                    TaggedValue::Named(k, v) => {
                        if value_equals(k, key) {
                            return Ok(v.deep_clone());
                        }
                    },
                    TaggedValue::Pair(k, v) => {
                        if value_equals(k, key) {
                            return Ok(v.deep_clone());
                        }
                    },
                    _ => {},
                }
                idx = idx + 1;
            }
            Err(BridgeError::InvalidOperation(String::from_str("Attribute not found")))
        },
        TaggedValue::Named(k, v) => {
            let through_value = attr_lookup(v, key);
            match through_value {
                Ok(found) => Ok(found),
                Err(_) => match attr_lookup(k, key) {
                    Ok(found) => Ok(found),
                    Err(_) => Err(BridgeError::InvalidOperation(
                        String::from_str("Attribute not found"),
                    )),
                },
            }
        },
        TaggedValue::Pair(k, v) => {
            let through_value = attr_lookup(v, key);
            match through_value {
                Ok(found) => Ok(found),
                Err(_) => match attr_lookup(k, key) {
                    Ok(found) => Ok(found),
                    Err(_) => Err(BridgeError::InvalidOperation(
                        String::from_str("Attribute not found"),
                    )),
                },
            }
        },
        _ => Err(BridgeError::InvalidOperation(String::from_str("Attribute not found"))),
    }
}

} // verus!

verus! {

/// The scan of `attr_scan`, keyed by the text of the lookup key: the first
/// named pair or plain pair whose key is a text equal to it.
pub open spec fn attr_scan_text(elems: Seq<TaggedValue>, key: Seq<char>, i: int) -> Option<
    TaggedValue,
>
    decreases elems.len() - i,
{
    if i < 0 || i >= elems.len() {
        Option::None
    } else {
        match elems[i] {
            TaggedValue::Named(k, v) => if *k matches TaggedValue::Text(t) && t@ == key {
                Option::Some(*v)
            } else {
                attr_scan_text(elems, key, i + 1)
            },
            TaggedValue::Pair(k, v) => if *k matches TaggedValue::Text(t) && t@ == key {
                Option::Some(*v)
            } else {
                attr_scan_text(elems, key, i + 1)
            },
            _ => attr_scan_text(elems, key, i + 1),
        }
    }
}

/// `attr_find`, keyed by the text of the lookup key: what looking up a text
/// attribute name yields.
pub open spec fn attr_find_text(c: TaggedValue, key: Seq<char>) -> Option<TaggedValue>
    decreases c,
{
    match c {
        TaggedValue::Tuple(elems) => attr_scan_text(elems@, key, 0),
        TaggedValue::Named(k, v) => match attr_find_text(*v, key) {
            Option::Some(found) => Option::Some(found),
            Option::None => attr_find_text(*k, key),
        },
        TaggedValue::Pair(k, v) => match attr_find_text(*v, key) {
            Option::Some(found) => Option::Some(found),
            Option::None => attr_find_text(*k, key),
        },
        _ => Option::None,
    }
}

/// Looking an attribute up under a text key goes only by the key text.
pub proof fn lemma_attr_find_text(c: TaggedValue, key: String)
    ensures
        attr_find(c, TaggedValue::Text(key)) == attr_find_text(c, key@),
    decreases c, 1int,
{
    match c {
        TaggedValue::Tuple(elems) => {
            lemma_attr_scan_text(c, elems@, key, 0);
        },
        TaggedValue::Named(k, v) => {
            lemma_attr_find_text(*v, key);
            lemma_attr_find_text(*k, key);
        },
        TaggedValue::Pair(k, v) => {
            lemma_attr_find_text(*v, key);
            lemma_attr_find_text(*k, key);
        },
        _ => {},
    }
}

proof fn lemma_attr_scan_text(c: TaggedValue, elems: Seq<TaggedValue>, key: String, i: int)
    requires
        c matches TaggedValue::Tuple(es) && es@ == elems,
    ensures
        attr_scan(elems, TaggedValue::Text(key), i) == attr_scan_text(elems, key@, i),
    decreases c, 0int, elems.len() - i,
{
    if 0 <= i < elems.len() {
        lemma_attr_scan_text(c, elems, key, i + 1);
    }
}

} // verus!

verus! {

/// The engine's generic equality is a function of observable values:
/// observably equal operands compare identically.
pub proof fn lemma_eq_spec_congruent(
    a: TaggedValue,
    a2: TaggedValue,
    b: TaggedValue,
    b2: TaggedValue,
)
    requires
        a.obs_eq(a2),
        b.obs_eq(b2),
    ensures
        eq_spec(a, b) == eq_spec(a2, b2),
    decreases a,
{
    match (a, b) {
        (TaggedValue::Tuple(xs), TaggedValue::Tuple(ys)) => {
            let xs2 = a2->Tuple_0;
            let ys2 = b2->Tuple_0;
            if xs@.len() == ys@.len() {
                assert forall|i: int| 0 <= i < xs@.len() implies eq_spec(
                    #[trigger] xs@[i],
                    ys@[i],
                ) == eq_spec(xs2@[i], ys2@[i]) by {
                    lemma_eq_spec_congruent(xs@[i], xs2@[i], ys@[i], ys2@[i]);
                }
                if eq_spec(a, b) {
                    assert forall|i: int| 0 <= i < xs2@.len() implies eq_spec(
                        #[trigger] xs2@[i],
                        ys2@[i],
                    ) by {
                        assert(eq_spec(xs@[i], ys@[i]));
                    }
                } else {
                    let w = choose|i: int| 0 <= i < xs@.len() && !eq_spec(#[trigger] xs@[i], ys@[i]);
                    assert(!eq_spec(xs2@[w], ys2@[w]));
                }
            }
        },
        (TaggedValue::Pair(k1, v1), TaggedValue::Pair(k2, v2)) => {
            lemma_eq_spec_congruent(*k1, *a2->Pair_0, *k2, *b2->Pair_0);
            lemma_eq_spec_congruent(*v1, *a2->Pair_1, *v2, *b2->Pair_1);
        },
        (TaggedValue::Named(k1, v1), TaggedValue::Named(k2, v2)) => {
            lemma_eq_spec_congruent(*k1, *a2->Named_0, *k2, *b2->Named_0);
            lemma_eq_spec_congruent(*v1, *a2->Named_1, *v2, *b2->Named_1);
        },
        _ => {},
    }
}

/// Attribute lookup is a function of observable values: looking an
/// observably equal key up in an observably equal container finds an
/// observably equal value, or nothing in both.
pub proof fn lemma_attr_find_congruent(
    c: TaggedValue,
    c2: TaggedValue,
    k: TaggedValue,
    k2: TaggedValue,
)
    requires
        c.obs_eq(c2),
        k.obs_eq(k2),
    ensures
        match (attr_find(c, k), attr_find(c2, k2)) {
            (Option::None, Option::None) => true,
            (Option::Some(v), Option::Some(v2)) => v.obs_eq(v2),
            _ => false,
        },
    decreases c, 1int,
{
    match c {
        TaggedValue::Tuple(elems) => {
            lemma_attr_scan_congruent(c, c2, elems@, c2->Tuple_0@, k, k2, 0);
        },
        TaggedValue::Named(kk, vv) => {
            lemma_attr_find_congruent(*vv, *c2->Named_1, k, k2);
            lemma_attr_find_congruent(*kk, *c2->Named_0, k, k2);
        },
        TaggedValue::Pair(kk, vv) => {
            lemma_attr_find_congruent(*vv, *c2->Pair_1, k, k2);
            lemma_attr_find_congruent(*kk, *c2->Pair_0, k, k2);
        },
        _ => {},
    }
}

proof fn lemma_attr_scan_congruent(
    c: TaggedValue,
    c2: TaggedValue,
    elems: Seq<TaggedValue>,
    elems2: Seq<TaggedValue>,
    k: TaggedValue,
    k2: TaggedValue,
    i: int,
)
    requires
        c matches TaggedValue::Tuple(es) && es@ == elems,
        c2 matches TaggedValue::Tuple(es2) && es2@ == elems2,
        c.obs_eq(c2),
        k.obs_eq(k2),
    ensures
        match (attr_scan(elems, k, i), attr_scan(elems2, k2, i)) {
            (Option::None, Option::None) => true,
            (Option::Some(v), Option::Some(v2)) => v.obs_eq(v2),
            _ => false,
        },
    decreases c, 0int, elems.len() - i,
{
    if 0 <= i < elems.len() {
        assert(elems[i].obs_eq(elems2[i]));
        match elems[i] {
            TaggedValue::Named(ek, ev) => {
                lemma_eq_spec_congruent(*ek, *elems2[i]->Named_0, k, k2);
            },
            TaggedValue::Pair(ek, ev) => {
                lemma_eq_spec_congruent(*ek, *elems2[i]->Pair_0, k, k2);
            },
            _ => {},
        }
        lemma_attr_scan_congruent(c, c2, elems, elems2, k, k2, i + 1);
    }
}

} // verus!

verus! {

impl TaggedValue {
    /// Classification predicate: an engine integer.
    pub fn is_integer(&self) -> (r: bool)
        ensures
            r == (*self is Integer),
    {
        matches!(self, TaggedValue::Integer(_))
    }

    /// Classification predicate: an engine float.
    pub fn is_float(&self) -> (r: bool)
        ensures
            r == (*self is Float),
    {
        matches!(self, TaggedValue::Float(_))
    }

    /// Classification predicate: an engine text.
    pub fn is_string(&self) -> (r: bool)
        ensures
            r == (*self is Text),
    {
        matches!(self, TaggedValue::Text(_))
    }

    /// Classification predicate: an engine byte buffer.
    pub fn is_bytes(&self) -> (r: bool)
        ensures
            r == (*self is Bytes),
    {
        matches!(self, TaggedValue::Bytes(_))
    }

    /// Classification predicate: an engine boolean.
    pub fn is_boolean(&self) -> (r: bool)
        ensures
            r == (*self is Boolean),
    {
        matches!(self, TaggedValue::Boolean(_))
    }

    /// Classification predicate: the engine's null value.
    pub fn is_null(&self) -> (r: bool)
        ensures
            r == (*self is Null),
    {
        matches!(self, TaggedValue::Null)
    }

    /// Classification predicate: an undefined value.
    pub fn is_undefined(&self) -> (r: bool)
        ensures
            r == (*self is Undefined),
    {
        matches!(self, TaggedValue::Undefined(_))
    }

    /// Classification predicate: a range.
    pub fn is_range(&self) -> (r: bool)
        ensures
            r == (*self is Range),
    {
        matches!(self, TaggedValue::Range(_, _))
    }

    /// Classification predicate: a tuple.
    pub fn is_tuple(&self) -> (r: bool)
        ensures
            r == (*self is Tuple),
    {
        matches!(self, TaggedValue::Tuple(_))
    }

    /// Classification predicate: a key-value pair.
    pub fn is_pair(&self) -> (r: bool)
        ensures
            r == (*self is Pair),
    {
        matches!(self, TaggedValue::Pair(_, _))
    }

    /// Classification predicate: a named pair.
    pub fn is_named(&self) -> (r: bool)
        ensures
            r == (*self is Named),
    {
        matches!(self, TaggedValue::Named(_, _))
    }

    /// Classification predicate: an opaque host-object handle.
    pub fn is_custom(&self) -> (r: bool)
        ensures
            r == (*self is Custom),
    {
        matches!(self, TaggedValue::Custom(_))
    }
}

/// Builds the engine's named dictionary out of key-value entries: a tuple
/// of named pairs, one per entry, in the given order.  This is the shape
/// every stdlib module and argument template uses.
pub fn build_named_dict(entries: Vec<(String, TaggedValue)>) -> (r: TaggedValue)
    ensures
        r matches TaggedValue::Tuple(es) && {
            &&& es@.len() == entries@.len()
            &&& forall|i: int|
                0 <= i < entries@.len() ==> ((#[trigger] es@[i]) matches TaggedValue::Named(k, v)
                    && *k matches TaggedValue::Text(t) && t@ == entries@[i].0@ && *v
                    == entries@[i].1)
        },
{
    let mut out: Vec<TaggedValue> = Vec::new();
    let mut entries = entries;
    let ghost all = entries@;
    let mut idx: usize = 0;
    let n = entries.len();
    while idx < n
        invariant
            n == all.len(),
            entries@ == all.skip(idx as int),
            idx <= n,
            out@.len() == idx,
            forall|i: int|
                0 <= i < idx ==> ((#[trigger] out@[i]) matches TaggedValue::Named(k, v) && *k
                    matches TaggedValue::Text(t) && t@ == all[i].0@ && *v == all[i].1),
        decreases n - idx,
    {
        let (key, value) = entries.remove(0);
        proof {
            assert(all.skip(idx as int)[0] == all[idx as int]);
            assert(all.skip(idx as int).skip(1) =~= all.skip(idx + 1));
        }
        out.push(TaggedValue::Named(Box::new(TaggedValue::Text(key)), Box::new(value)));
        idx = idx + 1;
    }
    TaggedValue::Tuple(out)
}

/// Direct attribute access on an engine value under a text key, as the
/// stdlib functions read their argument dictionaries.
pub fn get_attr_direct(obj: &TaggedValue, key: String) -> (r: Result<TaggedValue, BridgeError>)
    ensures
        match attr_find_text(*obj, key@) {
            Option::Some(v) => r matches Ok(out) && out.obs_eq(v),
            Option::None => r matches Err(e) && e matches BridgeError::InvalidOperation(m) && m@
                == "Attribute not found"@,
        },
{
    let key_value = TaggedValue::Text(key);
    proof {
        lemma_attr_find_text(*obj, key_value->Text_0);
    }
    attr_lookup(obj, &key_value)
}

} // verus!
