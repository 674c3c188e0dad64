//! The error taxonomy of the bridge layer, and the error bridge that maps
//! host exceptions to engine error values and engine errors to host-level
//! text.

use vstd::prelude::*;
use vstd::string::StringExecFns;

use crate::value::OpaqueHandle;
use crate::value::TaggedValue;

verus! {

/// Everything a bridge operation can report instead of a value.
#[derive(Debug)]
pub enum BridgeError {
    /// A marshalling or structural operation received a value of the wrong
    /// shape.
    InvalidOperation(String),
    /// An engine value did not match the tag an operation required.
    InvalidType(String),
    /// An adapter-protocol contract violation, described in text.
    DetailedError(String),
    /// An opaque foreign exception boxed as an engine value.
    CustomValue(Box<TaggedValue>),
    /// Not a failure: the pending call has produced no result yet and the
    /// scheduler should invoke `step` again later.
    Pending,
}

/// A host exception as the unverified rim captures it: the token of the
/// counted reference taken on the exception object when it could be captured
/// as an object, and a textual description either way.
pub struct HostException {
    pub object: Option<u64>,
    pub detail: String,
}

/// What `host_exception_to_engine` produces: the exception object boxed as
/// an engine custom value when it was captured, and a textual detailed error
/// when it was not.
pub open spec fn exception_maps_to(exc: HostException, e: BridgeError) -> bool {
    match exc.object {
        Option::Some(r) => e == BridgeError::CustomValue(
            Box::new(TaggedValue::Custom(OpaqueHandle { host_ref: r })),
        ),
        Option::None => e matches BridgeError::DetailedError(d)
            && d@ == "Failed to capture host exception: "@ + exc.detail@,
    }
}

/// Maps a captured host exception to an engine error value.  The round trip
/// is lossless only when the exception object itself was captured; otherwise
/// the information degrades to text.
pub fn host_exception_to_engine(exc: &HostException) -> (e: BridgeError)
    ensures
        exception_maps_to(*exc, e),
{
    match &exc.object {
        Option::Some(r) => BridgeError::CustomValue(
            Box::new(TaggedValue::Custom(OpaqueHandle { host_ref: *r })),
        ),
        Option::None => {
            let msg = String::from_str("Failed to capture host exception: ");
            BridgeError::DetailedError(msg.concat(exc.detail.as_str()))
        },
    }
}

/// The textual form of each engine-side error, as the host runtime's type
/// error will carry it.  The boxed-foreign-exception case is summarised
/// without rendering the boxed value.
pub open spec fn error_message_spec(e: BridgeError) -> Seq<char> {
    match e {
        BridgeError::InvalidOperation(m) => "Invalid operation: "@ + m@,
        BridgeError::InvalidType(m) => "Invalid type: "@ + m@,
        BridgeError::DetailedError(m) => "Detailed Error: "@ + m@,
        BridgeError::CustomValue(_) => "Custom value error"@,
        BridgeError::Pending => "Pending: The operation is not yet complete"@,
    }
}

/// Renders an engine error as the text a host-level type error carries.
pub fn engine_error_to_host(e: &BridgeError) -> (r: String)
    ensures
        r@ == error_message_spec(*e),
{
    match e {
        BridgeError::InvalidOperation(m) => String::from_str("Invalid operation: ").concat(
            m.as_str(),
        ),
        BridgeError::InvalidType(m) => String::from_str("Invalid type: ").concat(m.as_str()),
        BridgeError::DetailedError(m) => String::from_str("Detailed Error: ").concat(m.as_str()),
        BridgeError::CustomValue(_) => String::from_str("Custom value error"),
        BridgeError::Pending => String::from_str("Pending: The operation is not yet complete"),
    }
}

} // verus!
