//! The tuple utilities the engine's standard library exposes: growing,
//! shrinking and editing tuples.  All of them return a new tuple; values
//! are immutable.

use vstd::prelude::*;
use vstd::string::StringExecFns;

use crate::errors::BridgeError;
use crate::ops::attr_find_text;
use crate::ops::attr_lookup;
use crate::ops::lemma_attr_find_text;
use crate::value::TaggedValue;

verus! {

/// Reads the `container` attribute as a tuple, or reports the typed error.
fn container_attribute(argument: &TaggedValue) -> (r: Result<Vec<TaggedValue>, BridgeError>)
    ensures
        match attr_find_text(*argument, "container"@) {
            Option::Some(v) => match v {
                TaggedValue::Tuple(orig) => r matches Ok(es) && es@.len() == orig@.len()
                    && forall|i: int|
                    0 <= i < orig@.len() ==> (#[trigger] es@[i]).obs_eq(orig@[i]),
                _ => r matches Err(e) && e matches BridgeError::InvalidOperation(m) && m@
                    == "Expected a tuple for 'container'"@,
            },
            Option::None => r matches Err(e) && e matches BridgeError::InvalidOperation(m) && m@
                == "Attribute not found"@,
        },
{
    let key_value = TaggedValue::Text("container".to_string());
    proof {
        lemma_attr_find_text(*argument, key_value->Text_0);
    }
    match attr_lookup(argument, &key_value) {
        Ok(v) => match v {
            TaggedValue::Tuple(es) => Ok(es),
            _ => Err(BridgeError::InvalidOperation(
                String::from_str("Expected a tuple for 'container'"),
            )),
        },
        Err(e) => Err(e),
    }
}

/// A new tuple equal to the `container` attribute with the `value`
/// attribute appended.
pub fn push(argument: &TaggedValue) -> (r: Result<TaggedValue, BridgeError>)
    ensures
        match (attr_find_text(*argument, "container"@), attr_find_text(*argument, "value"@)) {
            (Option::Some(TaggedValue::Tuple(orig)), Option::Some(val)) => (r matches Ok(out)
                && out matches TaggedValue::Tuple(es) && {
                &&& es@.len() == orig@.len() + 1
                &&& forall|i: int| 0 <= i < orig@.len() ==> (#[trigger] es@[i]).obs_eq(orig@[i])
                &&& es@.last().obs_eq(val)
            }),
            _ => r is Err,
        },
{
    let key_value = TaggedValue::Text("value".to_string());
    proof {
        lemma_attr_find_text(*argument, key_value->Text_0);
    }
    let value = attr_lookup(argument, &key_value)?;
    let mut es = container_attribute(argument)?;
    es.push(value);
    Ok(TaggedValue::Tuple(es))
}

/// A new tuple equal to the `container` attribute without its last
/// element; an empty tuple is rejected.
pub fn pop(argument: &TaggedValue) -> (r: Result<TaggedValue, BridgeError>)
    ensures
        match attr_find_text(*argument, "container"@) {
            Option::Some(v) => match v {
                TaggedValue::Tuple(orig) => {
                    if orig@.len() == 0 {
                        r matches Err(e) && e matches BridgeError::InvalidOperation(m) && m@
                            == "Cannot pop from an empty tuple"@
                    } else {
                        r matches Ok(out) && out matches TaggedValue::Tuple(es) && {
                            &&& es@.len() == orig@.len() - 1
                            &&& forall|i: int|
                                0 <= i < es@.len() ==> (#[trigger] es@[i]).obs_eq(orig@[i])
                        }
                    }
                },
                _ => r matches Err(e) && e matches BridgeError::InvalidOperation(m) && m@
                    == "Expected a tuple for 'container'"@,
            },
            Option::None => r matches Err(e) && e is InvalidOperation,
        },
{
    let mut es = container_attribute(argument)?;
    if es.len() == 0 {
        return Err(BridgeError::InvalidOperation(
            String::from_str("Cannot pop from an empty tuple"),
        ));
    }
    let _ = es.pop();
    Ok(TaggedValue::Tuple(es))
}

/// A new tuple equal to the `container` attribute with the `value`
/// attribute inserted at index `index`; an index past the end, or one that
/// is not an integer, is rejected.
pub fn insert(argument: &TaggedValue) -> (r: Result<TaggedValue, BridgeError>)
    ensures
        match (
            attr_find_text(*argument, "container"@),
            attr_find_text(*argument, "index"@),
            attr_find_text(*argument, "value"@),
        ) {
            (
                Option::Some(TaggedValue::Tuple(orig)),
                Option::Some(TaggedValue::Integer(idx)),
                Option::Some(val),
            ) => {
                if 0 <= idx <= orig@.len() {
                    r matches Ok(out) && out matches TaggedValue::Tuple(es) && {
                        &&& es@.len() == orig@.len() + 1
                        &&& forall|i: int| 0 <= i < idx ==> (#[trigger] es@[i]).obs_eq(orig@[i])
                        &&& es@[idx as int].obs_eq(val)
                        &&& forall|i: int|
                            idx < i < es@.len() ==> (#[trigger] es@[i]).obs_eq(orig@[i - 1])
                    }
                } else {
                    r matches Err(e) && e matches BridgeError::InvalidOperation(m) && m@
                        == "Index out of bounds"@
                }
            },
            (Option::Some(TaggedValue::Tuple(_)), Option::Some(_), Option::Some(_)) => r matches
                Err(e) && e matches BridgeError::InvalidOperation(m) && m@
                == "Index must be an integer"@,
            _ => r is Err,
        },
{
    let key_value = TaggedValue::Text("value".to_string());
    proof {
        lemma_attr_find_text(*argument, key_value->Text_0);
    }
    let value = attr_lookup(argument, &key_value)?;
    let idx_key = TaggedValue::Text("index".to_string());
    proof {
        lemma_attr_find_text(*argument, idx_key->Text_0);
    }
    let index = attr_lookup(argument, &idx_key)?;
    let mut es = container_attribute(argument)?;
    match index {
        TaggedValue::Integer(idx) => {
            if 0 <= idx && (idx as u64) <= (es.len() as u64) {
                es.insert(idx as usize, value);
                Ok(TaggedValue::Tuple(es))
            } else {
                Err(BridgeError::InvalidOperation(String::from_str("Index out of bounds")))
            }
        },
        _ => Err(BridgeError::InvalidOperation(String::from_str("Index must be an integer"))),
    }
}

/// A new tuple equal to the `container` attribute without the element at
/// index `index`; an index out of bounds, or one that is not an integer,
/// is rejected.
pub fn remove(argument: &TaggedValue) -> (r: Result<TaggedValue, BridgeError>)
    ensures
        match (attr_find_text(*argument, "container"@), attr_find_text(*argument, "index"@)) {
            (Option::Some(TaggedValue::Tuple(orig)), Option::Some(TaggedValue::Integer(idx))) => {
                if 0 <= idx < orig@.len() {
                    r matches Ok(out) && out matches TaggedValue::Tuple(es) && {
                        &&& es@.len() == orig@.len() - 1
                        &&& forall|i: int| 0 <= i < idx ==> (#[trigger] es@[i]).obs_eq(orig@[i])
                        &&& forall|i: int|
                            idx <= i < es@.len() ==> (#[trigger] es@[i]).obs_eq(orig@[i + 1])
                    }
                } else {
                    r matches Err(e) && e matches BridgeError::InvalidOperation(m) && m@
                        == "Index out of bounds"@
                }
            },
            (Option::Some(TaggedValue::Tuple(_)), Option::Some(_)) => r matches Err(e) && e
                matches BridgeError::InvalidOperation(m) && m@ == "Index must be an integer"@,
            _ => r is Err,
        },
{
    let idx_key = TaggedValue::Text("index".to_string());
    proof {
        lemma_attr_find_text(*argument, idx_key->Text_0);
    }
    let index = attr_lookup(argument, &idx_key)?;
    let mut es = container_attribute(argument)?;
    match index {
        TaggedValue::Integer(idx) => {
            if 0 <= idx && (idx as u64) < (es.len() as u64) {
                let _ = es.remove(idx as usize);
                Ok(TaggedValue::Tuple(es))
            } else {
                Err(BridgeError::InvalidOperation(String::from_str("Index out of bounds")))
            }
        },
        _ => Err(BridgeError::InvalidOperation(String::from_str("Index must be an integer"))),
    }
}

} // verus!
