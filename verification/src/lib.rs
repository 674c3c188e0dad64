//! Foreign-call adapter and value-bridge layer for a cooperative, step-driven
//! execution engine talking to a dynamic, reference-counted host runtime.
//!
//! The crate models the engine's immutable tagged values and the host's
//! classified objects as plain data, proves the bidirectional value bridge
//! total, and drives the host-call adapters as explicit step/receive/copy
//! state machines whose decisions are verified; the thin layer that actually
//! touches the host runtime sits outside and only performs the requests these
//! machines hand it.

pub mod adapter;
pub mod bridge;
pub mod byteslib;
pub mod errors;
pub mod ops;
pub mod runloop;
pub mod search;
pub mod strlib;
pub mod textnum;
pub mod timelib;
pub mod tuplelib;
pub mod typeslib;
pub mod value;

pub use bridge::HostValue;
pub use errors::BridgeError;
pub use errors::HostException;
pub use timelib::AsyncSleep;
pub use timelib::format_timestamp;
pub use value::OpaqueHandle;
pub use value::TaggedValue;
