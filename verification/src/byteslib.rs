//! The byte-buffer utilities the engine's standard library exposes.  Each
//! function receives the structured argument value of a synchronous call
//! adapter and yields a tagged value or a typed operational error.  The one
//! outside call is the UTF-8 decoding of a buffer, behind a trusted
//! wrapper.

use vstd::prelude::*;
use vstd::string::StringExecFns;
use vstd::string::StrSliceExecFns;
use vstd::utf8::encode_utf8;

use crate::errors::BridgeError;
use crate::ops::attr_find_text;
use crate::ops::attr_lookup;
use crate::ops::lemma_attr_find_text;
use crate::search::bytes_contain;
use crate::search::bytes_end_with;
use crate::search::bytes_start_with;
use crate::search::find_bytes;
use crate::search::has_slice;
use crate::search::slice_matches_at;
use crate::strlib::int_attribute;
use crate::value::TaggedValue;

verus! {

/// Relies on `String::from_utf8`: the buffer is decoded exactly when it is
/// the UTF-8 encoding of some text, and the decoded text re-encodes to the
/// buffer.
#[verifier::external_body]
fn decode_utf8(b: &Vec<u8>) -> (r: Option<String>)
    ensures
        r matches Some(s) ==> encode_utf8(s@) == b@,
        r is None ==> !(exists|t: Seq<char>| encode_utf8(t) == b@),
{
    match String::from_utf8(b.clone()) {
        Ok(s) => Some(s),
        Err(_) => None,
    }
}

/// Reads a byte-buffer attribute out of a stdlib argument dictionary, or
/// reports the typed error carrying the given text.
pub fn bytes_attribute(argument: &TaggedValue, key: &str, bad: &str) -> (r: Result<
    Vec<u8>,
    BridgeError,
>)
    ensures
        match attr_find_text(*argument, key@) {
            Option::Some(v) => match v {
                TaggedValue::Bytes(b) => r matches Ok(out) && out@ == b@,
                _ => r matches Err(e) && e matches BridgeError::InvalidOperation(m) && m@
                    == bad@,
            },
            Option::None => r matches Err(e) && e matches BridgeError::InvalidOperation(m) && m@
                == "Attribute not found"@,
        },
{
    let key_value = TaggedValue::Text(key.to_string());
    proof {
        lemma_attr_find_text(*argument, key_value->Text_0);
    }
    match attr_lookup(argument, &key_value) {
        Ok(v) => match v {
            TaggedValue::Bytes(b) => Ok(b),
            _ => Err(BridgeError::InvalidOperation(bad.to_string())),
        },
        Err(e) => Err(e),
    }
}

/// The length of the `bytes` attribute, as an engine integer.
pub fn length(argument: &TaggedValue) -> (r: Result<TaggedValue, BridgeError>)
    ensures
        match attr_find_text(*argument, "bytes"@) {
            Option::Some(v) => match v {
                TaggedValue::Bytes(b) => {
                    if b@.len() <= i64::MAX {
                        r matches Ok(out) && out == TaggedValue::Integer(b@.len() as i64)
                    } else {
                        r matches Err(e) && e is InvalidOperation
                    }
                },
                _ => r matches Err(e) && e matches BridgeError::InvalidOperation(m) && m@
                    == "length requires bytes"@,
            },
            Option::None => r matches Err(e) && e is InvalidOperation,
        },
{
    let b = bytes_attribute(argument, "bytes", "length requires bytes")?;
    let n = b.len();
    if (n as u64) <= 9223372036854775807u64 {
        Ok(TaggedValue::Integer(n as i64))
    } else {
        Err(BridgeError::InvalidOperation(
            String::from_str("Length exceeds the engine integer range"),
        ))
    }
}

/// Whether the `bytes` attribute is empty.
pub fn is_empty(argument: &TaggedValue) -> (r: Result<TaggedValue, BridgeError>)
    ensures
        match attr_find_text(*argument, "bytes"@) {
            Option::Some(v) => match v {
                TaggedValue::Bytes(b) => r == Ok::<TaggedValue, BridgeError>(
                    TaggedValue::Boolean(b@.len() == 0),
                ),
                _ => r matches Err(e) && e matches BridgeError::InvalidOperation(m) && m@
                    == "is_empty requires bytes"@,
            },
            Option::None => r matches Err(e) && e is InvalidOperation,
        },
{
    let b = bytes_attribute(argument, "bytes", "is_empty requires bytes")?;
    Ok(TaggedValue::Boolean(b.len() == 0))
}

/// The concatenation of the `a` and `b` byte attributes.
pub fn concat(argument: &TaggedValue) -> (r: Result<TaggedValue, BridgeError>)
    ensures
        match (attr_find_text(*argument, "a"@), attr_find_text(*argument, "b"@)) {
            (Option::Some(TaggedValue::Bytes(a)), Option::Some(TaggedValue::Bytes(b))) => r
                matches Ok(out) && out matches TaggedValue::Bytes(z) && z@ == a@ + b@,
            _ => r is Err,
        },
{
    let a = bytes_attribute(argument, "a", "concat requires bytes arguments")?;
    let b = bytes_attribute(argument, "b", "concat requires bytes arguments")?;
    let mut out = a;
    let ghost a_view = out@;
    let mut idx: usize = 0;
    while idx < b.len()
        invariant
            idx <= b@.len(),
            out@ == a_view + b@.subrange(0, idx as int),
        decreases b@.len() - idx,
    {
        out.push(b[idx]);
        proof {
            assert(out@ =~= a_view + b@.subrange(0, idx + 1 as int));
        }
        idx = idx + 1;
    }
    proof {
        assert(b@.subrange(0, b@.len() as int) =~= b@);
    }
    Ok(TaggedValue::Bytes(out))
}

/// The slice of the `bytes` attribute from index `start`, of at most
/// `length` bytes: empty when the start lies at or past the end, the
/// remainder when the length is negative or reaches past the end.
pub fn slice(argument: &TaggedValue) -> (r: Result<TaggedValue, BridgeError>)
    ensures
        match (
            attr_find_text(*argument, "bytes"@),
            attr_find_text(*argument, "start"@),
            attr_find_text(*argument, "length"@),
        ) {
            (
                Option::Some(TaggedValue::Bytes(b)),
                Option::Some(TaggedValue::Integer(start)),
                Option::Some(TaggedValue::Integer(len)),
            ) => (r matches Ok(out) && out matches TaggedValue::Bytes(z) && {
                if start < 0 || start >= b@.len() {
                    z@ == Seq::<u8>::empty()
                } else if len < 0 || start + len > b@.len() {
                    z@ == b@.subrange(start as int, b@.len() as int)
                } else {
                    z@ == b@.subrange(start as int, start + len)
                }
            }),
            _ => r is Err,
        },
{
    let b = bytes_attribute(argument, "bytes", "slice requires bytes and integer arguments")?;
    let start = int_attribute(argument, "start", "slice requires bytes and integer arguments")?;
    let len = int_attribute(argument, "length", "slice requires bytes and integer arguments")?;
    let n = b.len();
    if start < 0 || (start as u64) >= (n as u64) {
        return Ok(TaggedValue::Bytes(Vec::new()));
    }
    let start_idx = start as usize;
    let remaining = n - start_idx;
    let end_idx: usize = if len < 0 || (len as u64) > (remaining as u64) {
        n
    } else {
        start_idx + (len as usize)
    };
    let mut out: Vec<u8> = Vec::new();
    let mut idx: usize = start_idx;
    while idx < end_idx
        invariant
            start_idx <= idx <= end_idx <= b@.len(),
            out@ == b@.subrange(start_idx as int, idx as int),
        decreases end_idx - idx,
    {
        out.push(b[idx]);
        proof {
            assert(out@ =~= b@.subrange(start_idx as int, idx + 1 as int));
        }
        idx = idx + 1;
    }
    Ok(TaggedValue::Bytes(out))
}

/// The byte at index `index` of the `bytes` attribute, as an engine
/// integer; out-of-bounds indices are rejected.
pub fn get_at(argument: &TaggedValue) -> (r: Result<TaggedValue, BridgeError>)
    ensures
        match (attr_find_text(*argument, "bytes"@), attr_find_text(*argument, "index"@)) {
            (Option::Some(TaggedValue::Bytes(b)), Option::Some(TaggedValue::Integer(idx))) => {
                if 0 <= idx < b@.len() {
                    r matches Ok(out) && out == TaggedValue::Integer(b@[idx as int] as i64)
                } else {
                    r matches Err(e) && e matches BridgeError::InvalidOperation(m) && m@
                        == "index out of bounds"@
                }
            },
            _ => r is Err,
        },
{
    let b = bytes_attribute(argument, "bytes", "get_at requires bytes and integer arguments")?;
    let idx = int_attribute(argument, "index", "get_at requires bytes and integer arguments")?;
    if 0 <= idx && (idx as u64) < (b.len() as u64) {
        Ok(TaggedValue::Integer(b[idx as usize] as i64))
    } else {
        Err(BridgeError::InvalidOperation(String::from_str("index out of bounds")))
    }
}

/// A new buffer equal to the `bytes` attribute with the byte at `index`
/// replaced by `value` (reduced to a byte); out-of-bounds indices are
/// rejected.  The buffer handed in is untouched: values are immutable.
pub fn set_at(argument: &TaggedValue) -> (r: Result<TaggedValue, BridgeError>)
    ensures
        match (
            attr_find_text(*argument, "bytes"@),
            attr_find_text(*argument, "index"@),
            attr_find_text(*argument, "value"@),
        ) {
            (
                Option::Some(TaggedValue::Bytes(b)),
                Option::Some(TaggedValue::Integer(idx)),
                Option::Some(TaggedValue::Integer(val)),
            ) => {
                if 0 <= idx < b@.len() {
                    r matches Ok(out) && out matches TaggedValue::Bytes(z) && z@ == b@.update(
                        idx as int,
                        val as u8,
                    )
                } else {
                    r matches Err(e) && e matches BridgeError::InvalidOperation(m) && m@
                        == "index out of bounds"@
                }
            },
            _ => r is Err,
        },
{
    let b = bytes_attribute(argument, "bytes", "set_at requires bytes and integer arguments")?;
    let idx = int_attribute(argument, "index", "set_at requires bytes and integer arguments")?;
    let val = int_attribute(argument, "value", "set_at requires bytes and integer arguments")?;
    if 0 <= idx && (idx as u64) < (b.len() as u64) {
        let mut out = b;
        #[verifier::truncate]
        let byte = val as u8;
        out.set(idx as usize, byte);
        Ok(TaggedValue::Bytes(out))
    } else {
        Err(BridgeError::InvalidOperation(String::from_str("index out of bounds")))
    }
}

/// The index of the first occurrence of the `pattern` attribute inside the
/// `bytes` attribute: zero for an empty pattern, minus one when it does not
/// occur.
pub fn index_of(argument: &TaggedValue) -> (r: Result<TaggedValue, BridgeError>)
    ensures
        match (attr_find_text(*argument, "bytes"@), attr_find_text(*argument, "pattern"@)) {
            (Option::Some(TaggedValue::Bytes(b)), Option::Some(TaggedValue::Bytes(p))) => {
                if p@.len() == 0 {
                    r matches Ok(out) && out == TaggedValue::Integer(0i64)
                } else if has_slice(b@, p@) {
                    match r {
                        Ok(out) => out matches TaggedValue::Integer(n) && 0 <= n
                            && slice_matches_at(b@, p@, n as int) && forall|j: int|
                            0 <= j < n ==> !slice_matches_at(b@, p@, j),
                        Err(e) => e matches BridgeError::InvalidOperation(m) && m@
                            == "Index exceeds the engine integer range"@ && forall|j: int|
                            0 <= j <= i64::MAX ==> !slice_matches_at(b@, p@, j),
                    }
                } else {
                    r matches Ok(out) && out == TaggedValue::Integer(-1i64)
                }
            },
            _ => r is Err,
        },
{
    let b = bytes_attribute(argument, "bytes", "index_of requires bytes arguments")?;
    let p = bytes_attribute(argument, "pattern", "index_of requires bytes arguments")?;
    if p.len() == 0 {
        return Ok(TaggedValue::Integer(0));
    }
    match find_bytes(&b, &p) {
        Option::Some(i) => {
            if (i as u64) <= 9223372036854775807u64 {
                Ok(TaggedValue::Integer(i as i64))
            } else {
                Err(BridgeError::InvalidOperation(
                    String::from_str("Index exceeds the engine integer range"),
                ))
            }
        },
        Option::None => Ok(TaggedValue::Integer(-1)),
    }
}

/// Whether the `pattern` attribute occurs inside the `bytes` attribute; an
/// empty pattern always occurs.
pub fn contains(argument: &TaggedValue) -> (r: Result<TaggedValue, BridgeError>)
    ensures
        match (attr_find_text(*argument, "bytes"@), attr_find_text(*argument, "pattern"@)) {
            (Option::Some(TaggedValue::Bytes(b)), Option::Some(TaggedValue::Bytes(p))) => r
                == Ok::<TaggedValue, BridgeError>(TaggedValue::Boolean(has_slice(b@, p@))),
            _ => r is Err,
        },
{
    let b = bytes_attribute(argument, "bytes", "contains requires bytes arguments")?;
    let p = bytes_attribute(argument, "pattern", "contains requires bytes arguments")?;
    Ok(TaggedValue::Boolean(bytes_contain(&b, &p)))
}

/// Whether the `bytes` attribute starts with the `pattern` attribute.
pub fn starts_with(argument: &TaggedValue) -> (r: Result<TaggedValue, BridgeError>)
    ensures
        match (attr_find_text(*argument, "bytes"@), attr_find_text(*argument, "pattern"@)) {
            (Option::Some(TaggedValue::Bytes(b)), Option::Some(TaggedValue::Bytes(p))) => r
                == Ok::<TaggedValue, BridgeError>(
                TaggedValue::Boolean(
                    p@.len() <= b@.len() && b@.subrange(0, p@.len() as int) == p@,
                ),
            ),
            _ => r is Err,
        },
{
    let b = bytes_attribute(argument, "bytes", "starts_with requires bytes arguments")?;
    let p = bytes_attribute(argument, "pattern", "starts_with requires bytes arguments")?;
    Ok(TaggedValue::Boolean(bytes_start_with(&b, &p)))
}

/// Whether the `bytes` attribute ends with the `pattern` attribute.
pub fn ends_with(argument: &TaggedValue) -> (r: Result<TaggedValue, BridgeError>)
    ensures
        match (attr_find_text(*argument, "bytes"@), attr_find_text(*argument, "pattern"@)) {
            (Option::Some(TaggedValue::Bytes(b)), Option::Some(TaggedValue::Bytes(p))) => r
                == Ok::<TaggedValue, BridgeError>(
                TaggedValue::Boolean(
                    p@.len() <= b@.len() && b@.subrange(
                        b@.len() - p@.len(),
                        b@.len() as int,
                    ) == p@,
                ),
            ),
            _ => r is Err,
        },
{
    let b = bytes_attribute(argument, "bytes", "ends_with requires bytes arguments")?;
    let p = bytes_attribute(argument, "pattern", "ends_with requires bytes arguments")?;
    Ok(TaggedValue::Boolean(bytes_end_with(&b, &p)))
}

/// The `bytes` attribute repeated `count` times; a negative count is
/// rejected.
pub fn repeat(argument: &TaggedValue) -> (r: Result<TaggedValue, BridgeError>)
    ensures
        match (attr_find_text(*argument, "bytes"@), attr_find_text(*argument, "count"@)) {
            (Option::Some(TaggedValue::Bytes(b)), Option::Some(TaggedValue::Integer(n))) => {
                if n < 0 {
                    r matches Err(e) && e matches BridgeError::InvalidOperation(m) && m@
                        == "repeat count cannot be negative"@
                } else {
                    r matches Ok(out) && out matches TaggedValue::Bytes(z) && {
                        &&& z@.len() == n * b@.len()
                        &&& forall|i: int| 0 <= i < z@.len() ==> z@[i] == b@[i % (b@.len() as int)]
                    }
                }
            },
            _ => r is Err,
        },
{
    let b = bytes_attribute(argument, "bytes", "repeat requires bytes and integer arguments")?;
    let n = int_attribute(argument, "count", "repeat requires bytes and integer arguments")?;
    if n < 0 {
        return Err(BridgeError::InvalidOperation(
            String::from_str("repeat count cannot be negative"),
        ));
    }
    if b.len() == 0 {
        proof {
            assert(n * b@.len() == 0) by (nonlinear_arith)
                requires
                    b@.len() == 0,
            ;
        }
        return Ok(TaggedValue::Bytes(Vec::new()));
    }
    let mut out: Vec<u8> = Vec::new();
    let mut k: u64 = 0;
    while k < n as u64
        invariant
            b@.len() > 0,
            n >= 0,
            k <= n as u64,
            out@.len() == k * b@.len(),
            forall|i: int| 0 <= i < out@.len() ==> out@[i] == b@[i % (b@.len() as int)],
        decreases n as u64 - k,
    {
        let ghost before = out@;
        let mut idx: usize = 0;
        while idx < b.len()
            invariant
                idx <= b@.len(),
                out@ == before + b@.subrange(0, idx as int),
            decreases b@.len() - idx,
        {
            out.push(b[idx]);
            proof {
                assert(out@ =~= before + b@.subrange(0, idx + 1 as int));
            }
            idx = idx + 1;
        }
        proof {
            assert(b@.subrange(0, b@.len() as int) =~= b@);
            assert((k + 1) * b@.len() == k * b@.len() + b@.len()) by (nonlinear_arith);
            assert forall|i: int| 0 <= i < out@.len() implies out@[i] == b@[i % (
            b@.len() as int)] by {
                if i < before.len() {
                    assert(out@[i] == before[i]);
                } else {
                    let j = i - before.len();
                    assert(out@[i] == b@[j]);
                    assert(i == (k as int) * (b@.len() as int) + j);
                    assert(i % (b@.len() as int) == j) by (nonlinear_arith)
                        requires
                            0 <= j < b@.len() as int,
                            i == (k as int) * (b@.len() as int) + j,
                    ;
                }
            }
        }
        k = k + 1;
    }
    Ok(TaggedValue::Bytes(out))
}

/// The bytes of the `bytes` attribute in reverse order.
pub fn reverse(argument: &TaggedValue) -> (r: Result<TaggedValue, BridgeError>)
    ensures
        match attr_find_text(*argument, "bytes"@) {
            Option::Some(v) => match v {
                TaggedValue::Bytes(b) => r matches Ok(out) && out matches TaggedValue::Bytes(z)
                    && {
                    &&& z@.len() == b@.len()
                    &&& forall|i: int| 0 <= i < b@.len() ==> z@[i] == b@[b@.len() - 1 - i]
                },
                _ => r matches Err(e) && e matches BridgeError::InvalidOperation(m) && m@
                    == "reverse requires bytes"@,
            },
            Option::None => r matches Err(e) && e is InvalidOperation,
        },
{
    let b = bytes_attribute(argument, "bytes", "reverse requires bytes")?;
    let n = b.len();
    let mut out: Vec<u8> = Vec::new();
    let mut k: usize = 0;
    while k < n
        invariant
            n == b@.len(),
            k <= n,
            out@.len() == k,
            forall|i: int| 0 <= i < k ==> out@[i] == b@[n - 1 - i],
        decreases n - k,
    {
        out.push(b[n - 1 - k]);
        k = k + 1;
    }
    Ok(TaggedValue::Bytes(out))
}

/// The `bytes` attribute decoded as UTF-8 text; a buffer that is not valid
/// UTF-8 is rejected.
pub fn to_string(argument: &TaggedValue) -> (r: Result<TaggedValue, BridgeError>)
    ensures
        match attr_find_text(*argument, "bytes"@) {
            Option::Some(v) => match v {
                TaggedValue::Bytes(b) => match r {
                    Ok(out) => out matches TaggedValue::Text(t) && encode_utf8(t@) == b@,
                    Err(e) => e matches BridgeError::InvalidOperation(m) && (m@
                        == "bytes is not valid UTF-8"@ || m@ == "to_string requires bytes"@),
                },
                _ => r matches Err(e) && e matches BridgeError::InvalidOperation(m) && m@
                    == "to_string requires bytes"@,
            },
            Option::None => r matches Err(e) && e is InvalidOperation,
        },
{
    let b = bytes_attribute(argument, "bytes", "to_string requires bytes")?;
    match decode_utf8(&b) {
        Option::Some(s) => Ok(TaggedValue::Text(s)),
        Option::None => Err(BridgeError::InvalidOperation(
            String::from_str("bytes is not valid UTF-8"),
        )),
    }
}

/// The UTF-8 encoding of the `string` attribute, as a byte buffer.
pub fn from_string(argument: &TaggedValue) -> (r: Result<TaggedValue, BridgeError>)
    ensures
        match attr_find_text(*argument, "string"@) {
            Option::Some(v) => match v {
                TaggedValue::Text(s) => r matches Ok(out) && out matches TaggedValue::Bytes(z)
                    && z@ == encode_utf8(s@),
                _ => r matches Err(e) && e matches BridgeError::InvalidOperation(m) && m@
                    == "from_string requires string"@,
            },
            Option::None => r matches Err(e) && e is InvalidOperation,
        },
{
    let s = crate::strlib::text_attribute(argument, "string", "from_string requires string")?;
    Ok(TaggedValue::Bytes(s.as_str().as_bytes_vec()))
}

/// The `bytes` attribute left-padded with the `pad_byte` attribute
/// (reduced to a byte) up to `length` bytes; unchanged when already long
/// enough.  A negative target length counts as zero.
pub fn pad_left(argument: &TaggedValue) -> (r: Result<TaggedValue, BridgeError>)
    ensures
        match (
            attr_find_text(*argument, "bytes"@),
            attr_find_text(*argument, "length"@),
            attr_find_text(*argument, "pad_byte"@),
        ) {
            (
                Option::Some(TaggedValue::Bytes(b)),
                Option::Some(TaggedValue::Integer(len)),
                Option::Some(TaggedValue::Integer(pad)),
            ) => (r matches Ok(out) && out matches TaggedValue::Bytes(z) && {
                if len <= b@.len() {
                    z@ == b@
                } else {
                    z@ == Seq::new((len - b@.len()) as nat, |i: int| pad as u8) + b@
                }
            }),
            _ => r is Err,
        },
{
    let b = bytes_attribute(argument, "bytes", "pad_left requires bytes and integer arguments")?;
    let len = int_attribute(argument, "length", "pad_left requires bytes and integer arguments")?;
    let pad = int_attribute(
        argument,
        "pad_byte",
        "pad_left requires bytes and integer arguments",
    )?;
    let n = b.len();
    if len <= 0 || (len as u64) <= (n as u64) {
        return Ok(TaggedValue::Bytes(b));
    }
    #[verifier::truncate]
    let pad_byte = pad as u8;
    let count: u64 = (len as u64) - (n as u64);
    let mut out: Vec<u8> = Vec::new();
    let mut k: u64 = 0;
    while k < count
        invariant
            k <= count,
            out@ =~= Seq::new(k as nat, |i: int| pad_byte),
        decreases count - k,
    {
        out.push(pad_byte);
        proof {
            assert(out@ =~= Seq::new((k + 1) as nat, |i: int| pad_byte));
        }
        k = k + 1;
    }
    let ghost pad_view = out@;
    let mut idx: usize = 0;
    while idx < b.len()
        invariant
            idx <= b@.len(),
            out@ == pad_view + b@.subrange(0, idx as int),
        decreases b@.len() - idx,
    {
        out.push(b[idx]);
        proof {
            assert(out@ =~= pad_view + b@.subrange(0, idx + 1 as int));
        }
        idx = idx + 1;
    }
    proof {
        assert(b@.subrange(0, b@.len() as int) =~= b@);
    }
    Ok(TaggedValue::Bytes(out))
}

/// The `bytes` attribute right-padded with the `pad_byte` attribute
/// (reduced to a byte) up to `length` bytes; unchanged when already long
/// enough.  A negative target length counts as zero.
pub fn pad_right(argument: &TaggedValue) -> (r: Result<TaggedValue, BridgeError>)
    ensures
        match (
            attr_find_text(*argument, "bytes"@),
            attr_find_text(*argument, "length"@),
            attr_find_text(*argument, "pad_byte"@),
        ) {
            (
                Option::Some(TaggedValue::Bytes(b)),
                Option::Some(TaggedValue::Integer(len)),
                Option::Some(TaggedValue::Integer(pad)),
            ) => (r matches Ok(out) && out matches TaggedValue::Bytes(z) && {
                if len <= b@.len() {
                    z@ == b@
                } else {
                    z@ == b@ + Seq::new((len - b@.len()) as nat, |i: int| pad as u8)
                }
            }),
            _ => r is Err,
        },
{
    let b = bytes_attribute(argument, "bytes", "pad_right requires bytes and integer arguments")?;
    let len = int_attribute(
        argument,
        "length",
        "pad_right requires bytes and integer arguments",
    )?;
    let pad = int_attribute(
        argument,
        "pad_byte",
        "pad_right requires bytes and integer arguments",
    )?;
    let n = b.len();
    if len <= 0 || (len as u64) <= (n as u64) {
        return Ok(TaggedValue::Bytes(b));
    }
    #[verifier::truncate]
    let pad_byte = pad as u8;
    let count: u64 = (len as u64) - (n as u64);
    let mut out = b;
    let ghost b_view = out@;
    let mut k: u64 = 0;
    while k < count
        invariant
            k <= count,
            out@ =~= b_view + Seq::new(k as nat, |i: int| pad_byte),
        decreases count - k,
    {
        out.push(pad_byte);
        proof {
            assert(out@ =~= b_view + Seq::new((k + 1) as nat, |i: int| pad_byte));
        }
        k = k + 1;
    }
    Ok(TaggedValue::Bytes(out))
}

/// A byte buffer built from the `list` attribute, a tuple of integers each
/// between zero and 255; anything else in the tuple is rejected.
pub fn from_integers(argument: &TaggedValue) -> (r: Result<TaggedValue, BridgeError>)
    ensures
        match attr_find_text(*argument, "list"@) {
            Option::Some(v) => match v {
                TaggedValue::Tuple(es) => match r {
                    Ok(out) => out matches TaggedValue::Bytes(z) && {
                        &&& z@.len() == es@.len()
                        &&& forall|i: int|
                            0 <= i < es@.len() ==> ((#[trigger] es@[i]) matches
                                TaggedValue::Integer(x) && 0 <= x <= 255 && z@[i] == x as u8)
                    },
                    Err(e) => e matches BridgeError::InvalidOperation(m) && (m@
                        == "byte value must be between 0 and 255"@ || m@
                        == "list must contain only integers"@) && !(forall|i: int|
                        0 <= i < es@.len() ==> ((#[trigger] es@[i]) matches TaggedValue::Integer(
                            x,
                        ) && 0 <= x <= 255)),
                },
                _ => r matches Err(e) && e matches BridgeError::InvalidOperation(m) && m@
                    == "from_integers requires tuple argument"@,
            },
            Option::None => r matches Err(e) && e is InvalidOperation,
        },
{
    let key_value = TaggedValue::Text("list".to_string());
    proof {
        lemma_attr_find_text(*argument, key_value->Text_0);
    }
    let list = match attr_lookup(argument, &key_value) {
        Ok(v) => v,
        Err(e) => {
            return Err(e);
        },
    };
    match list {
        TaggedValue::Tuple(es) => {
            let mut out: Vec<u8> = Vec::new();
            let mut idx: usize = 0;
            while idx < es.len()
                invariant
                    attr_find_text(*argument, "list"@) matches Option::Some(lv) && lv matches
                        TaggedValue::Tuple(orig) && orig@.len() == es@.len() && forall|i: int|
                        0 <= i < es@.len() ==> (#[trigger] es@[i]).obs_eq(orig@[i]),
                    idx <= es@.len(),
                    out@.len() == idx,
                    forall|i: int|
                        0 <= i < idx ==> ((#[trigger] es@[i]) matches TaggedValue::Integer(x) && 0
                            <= x <= 255 && out@[i] == x as u8),
                decreases es@.len() - idx,
            {
                let ghost orig = attr_find_text(*argument, "list"@)->Some_0->Tuple_0;
                match &es[idx] {
                    TaggedValue::Integer(x) => {
                        if *x < 0 || *x > 255 {
                            proof {
                                assert(es@[idx as int].obs_eq(orig@[idx as int]));
                                assert(!((orig@[idx as int]) matches TaggedValue::Integer(y) && 0
                                    <= y <= 255));
                            }
                            return Err(BridgeError::InvalidOperation(
                                String::from_str("byte value must be between 0 and 255"),
                            ));
                        }
                        out.push(*x as u8);
                    },
                    _ => {
                        proof {
                            assert(es@[idx as int].obs_eq(orig@[idx as int]));
                            assert(!((orig@[idx as int]) matches TaggedValue::Integer(y) && 0 <= y
                                <= 255));
                        }
                        return Err(BridgeError::InvalidOperation(
                            String::from_str("list must contain only integers"),
                        ));
                    },
                }
                idx = idx + 1;
            }
            proof {
                let orig = attr_find_text(*argument, "list"@)->Some_0->Tuple_0;
                assert forall|i: int| 0 <= i < orig@.len() implies ((#[trigger] orig@[i]) matches
                    TaggedValue::Integer(x) && 0 <= x <= 255 && out@[i] == x as u8) by {
                    assert(es@[i].obs_eq(orig@[i]));
                    assert(es@[i] matches TaggedValue::Integer(x) && 0 <= x <= 255 && out@[i]
                        == x as u8);
                }
            }
            Ok(TaggedValue::Bytes(out))
        },
        _ => Err(BridgeError::InvalidOperation(
            String::from_str("from_integers requires tuple argument"),
        )),
    }
}

/// The `bytes` attribute as a tuple of engine integers, one per byte.
pub fn to_integers(argument: &TaggedValue) -> (r: Result<TaggedValue, BridgeError>)
    ensures
        match attr_find_text(*argument, "bytes"@) {
            Option::Some(v) => match v {
                TaggedValue::Bytes(b) => r matches Ok(out) && out matches TaggedValue::Tuple(es)
                    && {
                    &&& es@.len() == b@.len()
                    &&& forall|i: int|
                        0 <= i < b@.len() ==> (#[trigger] es@[i]) == TaggedValue::Integer(
                            b@[i] as i64,
                        )
                },
                _ => r matches Err(e) && e matches BridgeError::InvalidOperation(m) && m@
                    == "to_integers requires bytes"@,
            },
            Option::None => r matches Err(e) && e is InvalidOperation,
        },
{
    let b = bytes_attribute(argument, "bytes", "to_integers requires bytes")?;
    let mut out: Vec<TaggedValue> = Vec::new();
    let mut idx: usize = 0;
    while idx < b.len()
        invariant
            idx <= b@.len(),
            out@.len() == idx,
            forall|i: int|
                0 <= i < idx ==> (#[trigger] out@[i]) == TaggedValue::Integer(b@[i] as i64),
        decreases b@.len() - idx,
    {
        out.push(TaggedValue::Integer(b[idx] as i64));
        idx = idx + 1;
    }
    Ok(TaggedValue::Tuple(out))
}

} // verus!
