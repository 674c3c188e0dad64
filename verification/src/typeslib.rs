//! The type-inspection and conversion utilities the engine's standard
//! library exposes.  Conversions that need the host runtime's float unit —
//! producing or reading a float — live with the rim that owns that unit;
//! everything else is verified here.

use vstd::prelude::*;
use vstd::string::StringExecFns;
use vstd::string::StrSliceExecFns;
use vstd::utf8::encode_utf8;

use crate::errors::BridgeError;
use crate::ops::attr_find_text;
use crate::ops::attr_lookup;
use crate::ops::lemma_attr_find_text;
use crate::ops::type_tag;
use crate::ops::type_tag_spec;
use crate::strlib::trim_text;
use crate::strlib::trimmed;
use crate::textnum::int_text;
use crate::textnum::i64_to_text;
use crate::textnum::parse_i64_spec;
use crate::textnum::text_to_i64;
use crate::value::TaggedValue;

verus! {

/// Reads the `value` attribute, whatever its variant.
fn value_attribute(argument: &TaggedValue) -> (r: Result<TaggedValue, BridgeError>)
    ensures
        match attr_find_text(*argument, "value"@) {
            Option::Some(v) => r matches Ok(out) && out.obs_eq(v),
            Option::None => r matches Err(e) && e matches BridgeError::InvalidOperation(m) && m@
                == "Attribute not found"@,
        },
{
    let key_value = TaggedValue::Text("value".to_string());
    proof {
        lemma_attr_find_text(*argument, key_value->Text_0);
    }
    attr_lookup(argument, &key_value)
}

/// Case-insensitive equality of a character against a lowercase ASCII
/// letter or digit: equal as they stand, or equal after lowering an ASCII
/// capital.
pub open spec fn char_eq_ci(a: char, b: char) -> bool {
    a == b || ('a' <= b && b <= 'z' && a as int == b as int - 32)
}

/// Case-insensitive equality of a text against a lowercase ASCII keyword.
pub open spec fn eq_ci(s: Seq<char>, kw: Seq<char>) -> bool {
    s.len() == kw.len() && forall|i: int| 0 <= i < s.len() ==> char_eq_ci(s[i], #[trigger] kw[i])
}

fn eq_ci_exec(s: &str, kw: &str) -> (r: bool)
    ensures
        r == eq_ci(s@, kw@),
{
    let n = s.unicode_len();
    let m = kw.unicode_len();
    if n != m {
        return false;
    }
    let mut i: usize = 0;
    while i < n
        invariant
            n == s@.len(),
            n == kw@.len(),
            i <= n,
            forall|j: int| 0 <= j < i ==> char_eq_ci(s@[j], #[trigger] kw@[j]),
        decreases n - i,
    {
        let a = s.get_char(i);
        let b = kw.get_char(i);
        let lowered = a == b || ('a' <= b && b <= 'z' && (a as u32) + 32 == (b as u32));
        if !lowered {
            return false;
        }
        i = i + 1;
    }
    true
}

/// What the truth-conversion of a trimmed text yields: the affirmative
/// keywords are true; the negative keywords and the empty text are false;
/// anything else does not convert.
pub open spec fn bool_text_value(t: Seq<char>) -> Option<bool> {
    if eq_ci(t, "true"@) || eq_ci(t, "1"@) || eq_ci(t, "yes"@) || eq_ci(t, "y"@) {
        Option::Some(true)
    } else if eq_ci(t, "false"@) || eq_ci(t, "0"@) || eq_ci(t, "no"@) || eq_ci(t, "n"@) || t.len()
        == 0 {
        Option::Some(false)
    } else {
        Option::None
    }
}

/// The stdlib's conversion of the `value` attribute to an engine integer:
/// a text is trimmed and parsed in decimal, an integer passes through, a
/// boolean becomes one or zero.  A float needs the host float unit; other
/// variants are rejected.
pub fn to_int(argument: &TaggedValue) -> (r: Result<TaggedValue, BridgeError>)
    ensures
        match attr_find_text(*argument, "value"@) {
            Option::Some(v) => match v {
                TaggedValue::Text(s) => match parse_i64_spec(trimmed(s@)) {
                    Option::Some(n) => r == Ok::<TaggedValue, BridgeError>(
                        TaggedValue::Integer(n as i64),
                    ),
                    Option::None => r matches Err(e) && e matches BridgeError::InvalidOperation(
                        m,
                    ) && m@ == "Cannot convert string to integer"@,
                },
                TaggedValue::Integer(i) => r == Ok::<TaggedValue, BridgeError>(
                    TaggedValue::Integer(i),
                ),
                TaggedValue::Boolean(b) => r == Ok::<TaggedValue, BridgeError>(
                    TaggedValue::Integer(
                        if b {
                            1i64
                        } else {
                            0i64
                        },
                    ),
                ),
                TaggedValue::Float(_) => r matches Err(e) && e matches
                    BridgeError::InvalidOperation(m) && m@ == crate::ops::float_unit_text(),
                _ => r matches Err(e) && e matches BridgeError::InvalidOperation(m) && m@
                    == "Cannot convert value to integer"@,
            },
            Option::None => r matches Err(e) && e is InvalidOperation,
        },
{
    let v = value_attribute(argument)?;
    match v {
        TaggedValue::Text(s) => {
            let t = trim_text(s.as_str());
            match text_to_i64(t.as_str()) {
                Option::Some(n) => Ok(TaggedValue::Integer(n)),
                Option::None => Err(BridgeError::InvalidOperation(
                    String::from_str("Cannot convert string to integer"),
                )),
            }
        },
        TaggedValue::Integer(i) => Ok(TaggedValue::Integer(i)),
        TaggedValue::Boolean(b) => Ok(TaggedValue::Integer(if b { 1 } else { 0 })),
        TaggedValue::Float(_) => Err(BridgeError::InvalidOperation(
            String::from_str("Float arithmetic is delegated to the host float unit"),
        )),
        _ => Err(BridgeError::InvalidOperation(
            String::from_str("Cannot convert value to integer"),
        )),
    }
}

/// The stdlib's conversion of the `value` attribute to an engine boolean:
/// a text is trimmed and matched case-insensitively against the
/// affirmative and negative keywords, an integer is true when non-zero, a
/// boolean passes through, null and undefined are false, and the remaining
/// variants are true.  A float needs the host float unit.
pub fn to_bool(argument: &TaggedValue) -> (r: Result<TaggedValue, BridgeError>)
    ensures
        match attr_find_text(*argument, "value"@) {
            Option::Some(v) => match v {
                TaggedValue::Text(s) => match bool_text_value(trimmed(s@)) {
                    Option::Some(b) => r == Ok::<TaggedValue, BridgeError>(
                        TaggedValue::Boolean(b),
                    ),
                    Option::None => r matches Err(e) && e matches BridgeError::InvalidOperation(
                        m,
                    ) && m@ == "Cannot convert string to boolean"@,
                },
                TaggedValue::Integer(i) => r == Ok::<TaggedValue, BridgeError>(
                    TaggedValue::Boolean(i != 0),
                ),
                TaggedValue::Boolean(b) => r == Ok::<TaggedValue, BridgeError>(
                    TaggedValue::Boolean(b),
                ),
                TaggedValue::Undefined(_) => r == Ok::<TaggedValue, BridgeError>(
                    TaggedValue::Boolean(false),
                ),
                TaggedValue::Null => r == Ok::<TaggedValue, BridgeError>(
                    TaggedValue::Boolean(false),
                ),
                TaggedValue::Float(_) => r matches Err(e) && e matches
                    BridgeError::InvalidOperation(m) && m@ == crate::ops::float_unit_text(),
                _ => r == Ok::<TaggedValue, BridgeError>(TaggedValue::Boolean(true)),
            },
            Option::None => r matches Err(e) && e is InvalidOperation,
        },
{
    let v = value_attribute(argument)?;
    match v {
        TaggedValue::Text(s) => {
            let t = trim_text(s.as_str());
            if eq_ci_exec(t.as_str(), "true") || eq_ci_exec(t.as_str(), "1") || eq_ci_exec(
                t.as_str(),
                "yes",
            ) || eq_ci_exec(t.as_str(), "y") {
                Ok(TaggedValue::Boolean(true))
            } else if eq_ci_exec(t.as_str(), "false") || eq_ci_exec(t.as_str(), "0")
                || eq_ci_exec(t.as_str(), "no") || eq_ci_exec(t.as_str(), "n") || t.as_str().unicode_len()
                == 0 {
                Ok(TaggedValue::Boolean(false))
            } else {
                Err(BridgeError::InvalidOperation(
                    String::from_str("Cannot convert string to boolean"),
                ))
            }
        },
        TaggedValue::Integer(i) => Ok(TaggedValue::Boolean(i != 0)),
        TaggedValue::Boolean(b) => Ok(TaggedValue::Boolean(b)),
        TaggedValue::Undefined(_) => Ok(TaggedValue::Boolean(false)),
        TaggedValue::Null => Ok(TaggedValue::Boolean(false)),
        TaggedValue::Float(_) => Err(BridgeError::InvalidOperation(
            String::from_str("Float arithmetic is delegated to the host float unit"),
        )),
        _ => Ok(TaggedValue::Boolean(true)),
    }
}

/// The stdlib's type classification of the `value` attribute, as a text.
pub fn type_of(argument: &TaggedValue) -> (r: Result<TaggedValue, BridgeError>)
    ensures
        match attr_find_text(*argument, "value"@) {
            Option::Some(v) => r matches Ok(out) && out matches TaggedValue::Text(t) && t@
                == type_tag_spec(v),
            Option::None => r matches Err(e) && e is InvalidOperation,
        },
{
    let v = value_attribute(argument)?;
    Ok(TaggedValue::Text(type_tag(&v)))
}

/// Whether the `value` attribute is an engine integer.
pub fn is_int(argument: &TaggedValue) -> (r: Result<TaggedValue, BridgeError>)
    ensures
        match attr_find_text(*argument, "value"@) {
            Option::Some(v) => r == Ok::<TaggedValue, BridgeError>(
                TaggedValue::Boolean(v is Integer),
            ),
            Option::None => r matches Err(e) && e is InvalidOperation,
        },
{
    let v = value_attribute(argument)?;
    Ok(TaggedValue::Boolean(matches!(v, TaggedValue::Integer(_))))
}

/// Whether the `value` attribute is an engine float.
pub fn is_float(argument: &TaggedValue) -> (r: Result<TaggedValue, BridgeError>)
    ensures
        match attr_find_text(*argument, "value"@) {
            Option::Some(v) => r == Ok::<TaggedValue, BridgeError>(
                TaggedValue::Boolean(v is Float),
            ),
            Option::None => r matches Err(e) && e is InvalidOperation,
        },
{
    let v = value_attribute(argument)?;
    Ok(TaggedValue::Boolean(matches!(v, TaggedValue::Float(_))))
}

/// Whether the `value` attribute is an engine text.
pub fn is_string(argument: &TaggedValue) -> (r: Result<TaggedValue, BridgeError>)
    ensures
        match attr_find_text(*argument, "value"@) {
            Option::Some(v) => r == Ok::<TaggedValue, BridgeError>(
                TaggedValue::Boolean(v is Text),
            ),
            Option::None => r matches Err(e) && e is InvalidOperation,
        },
{
    let v = value_attribute(argument)?;
    Ok(TaggedValue::Boolean(matches!(v, TaggedValue::Text(_))))
}

/// Whether the `value` attribute is an engine boolean.
pub fn is_bool(argument: &TaggedValue) -> (r: Result<TaggedValue, BridgeError>)
    ensures
        match attr_find_text(*argument, "value"@) {
            Option::Some(v) => r == Ok::<TaggedValue, BridgeError>(
                TaggedValue::Boolean(v is Boolean),
            ),
            Option::None => r matches Err(e) && e is InvalidOperation,
        },
{
    let v = value_attribute(argument)?;
    Ok(TaggedValue::Boolean(matches!(v, TaggedValue::Boolean(_))))
}

/// Whether the `value` attribute is an engine byte buffer.
pub fn is_bytes(argument: &TaggedValue) -> (r: Result<TaggedValue, BridgeError>)
    ensures
        match attr_find_text(*argument, "value"@) {
            Option::Some(v) => r == Ok::<TaggedValue, BridgeError>(
                TaggedValue::Boolean(v is Bytes),
            ),
            Option::None => r matches Err(e) && e is InvalidOperation,
        },
{
    let v = value_attribute(argument)?;
    Ok(TaggedValue::Boolean(matches!(v, TaggedValue::Bytes(_))))
}

/// The stdlib's conversion of the `value` attribute to a byte buffer: a
/// text encodes as UTF-8, a buffer passes through, an integer becomes its
/// decimal text's bytes, a boolean a single one or zero byte.  A float
/// needs the host float unit; other variants are rejected.
pub fn to_bytes(argument: &TaggedValue) -> (r: Result<TaggedValue, BridgeError>)
    ensures
        match attr_find_text(*argument, "value"@) {
            Option::Some(v) => match v {
                TaggedValue::Text(s) => r matches Ok(out) && out matches TaggedValue::Bytes(z)
                    && z@ == encode_utf8(s@),
                TaggedValue::Bytes(b) => r matches Ok(out) && out matches TaggedValue::Bytes(z)
                    && z@ == b@,
                TaggedValue::Integer(i) => r matches Ok(out) && out matches TaggedValue::Bytes(
                    z,
                ) && z@ == encode_utf8(int_text(i as int)),
                TaggedValue::Boolean(b) => r matches Ok(out) && out matches TaggedValue::Bytes(
                    z,
                ) && z@ == seq![
                    if b {
                        1u8
                    } else {
                        0u8
                    },
                ],
                TaggedValue::Float(_) => r matches Err(e) && e matches
                    BridgeError::InvalidOperation(m) && m@ == crate::ops::float_unit_text(),
                _ => r matches Err(e) && e matches BridgeError::InvalidOperation(m) && m@
                    == "Cannot convert value to bytes"@,
            },
            Option::None => r matches Err(e) && e is InvalidOperation,
        },
{
    let v = value_attribute(argument)?;
    match v {
        TaggedValue::Text(s) => Ok(TaggedValue::Bytes(s.as_str().as_bytes_vec())),
        TaggedValue::Bytes(b) => Ok(TaggedValue::Bytes(b)),
        TaggedValue::Integer(i) => Ok(
            TaggedValue::Bytes(i64_to_text(i).as_str().as_bytes_vec()),
        ),
        TaggedValue::Boolean(b) => {
            let mut one: Vec<u8> = Vec::new();
            one.push(if b { 1u8 } else { 0u8 });
            proof {
                assert(one@ =~= seq![if b { 1u8 } else { 0u8 }]);
            }
            Ok(TaggedValue::Bytes(one))
        },
        TaggedValue::Float(_) => Err(BridgeError::InvalidOperation(
            String::from_str("Float arithmetic is delegated to the host float unit"),
        )),
        _ => Err(BridgeError::InvalidOperation(
            String::from_str("Cannot convert value to bytes"),
        )),
    }
}

/// The stdlib's safe attribute lookup: the value bound to the `key`
/// attribute inside the `obj` attribute, or an undefined value carrying
/// the lookup's failure text instead of an error.
pub fn find(argument: &TaggedValue) -> (r: Result<TaggedValue, BridgeError>)
    ensures
        match (attr_find_text(*argument, "obj"@), attr_find_text(*argument, "key"@)) {
            (Option::Some(obj), Option::Some(key)) => match crate::ops::attr_find(obj, key) {
                Option::Some(v) => r matches Ok(out) && out.obs_eq(v),
                Option::None => r matches Ok(out) && out matches TaggedValue::Undefined(u) && u
                    matches Some(m) && m@ == "Attribute not found"@,
            },
            _ => r is Err,
        },
{
    let obj_key = TaggedValue::Text("obj".to_string());
    proof {
        lemma_attr_find_text(*argument, obj_key->Text_0);
    }
    let obj = attr_lookup(argument, &obj_key)?;
    let key_key = TaggedValue::Text("key".to_string());
    proof {
        lemma_attr_find_text(*argument, key_key->Text_0);
    }
    let key = attr_lookup(argument, &key_key)?;
    proof {
        let orig_obj = attr_find_text(*argument, "obj"@)->Some_0;
        let orig_key = attr_find_text(*argument, "key"@)->Some_0;
        crate::ops::lemma_attr_find_congruent(obj, orig_obj, key, orig_key);
    }
    match crate::ops::attr_lookup(&obj, &key) {
        Ok(v) => {
            proof {
                let orig_obj = attr_find_text(*argument, "obj"@)->Some_0;
                let orig_key = attr_find_text(*argument, "key"@)->Some_0;
                let clone_found = crate::ops::attr_find(obj, key)->Some_0;
                let orig_found = crate::ops::attr_find(orig_obj, orig_key)->Some_0;
                crate::value::lemma_obs_eq_transitive(v, clone_found, orig_found);
            }
            Ok(v)
        },
        Err(e) => match e {
            BridgeError::InvalidOperation(m) => Ok(
                TaggedValue::Undefined(Option::Some(m)),
            ),
            _ => Err(e),
        },
    }
}

} // verus!
