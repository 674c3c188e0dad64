use onion_bridge::adapter::AsyncCallAdapter;
use onion_bridge::adapter::PollEvent;
use onion_bridge::adapter::StepSignal;
use onion_bridge::adapter::SyncCallAdapter;
use onion_bridge::errors::BridgeError;
use onion_bridge::errors::HostException;
use onion_bridge::bridge::HostValue;
use onion_bridge::ops::custom_is_same;
use onion_bridge::ops::set_attribute;
use onion_bridge::ops::value_equals;
use onion_bridge::value::OpaqueHandle;
use onion_bridge::value::TaggedValue;

#[test]
fn sync_adapter_add_scenario() {
    // An adapter wrapping a host add(a, b): bind the argument (2, 3), ask
    // for the invocation, and absorb the host's result 5.
    let mut adapter = SyncCallAdapter::new(1, None);
    let args = TaggedValue::Tuple(vec![TaggedValue::Integer(2), TaggedValue::Integer(3)]);
    let r = adapter.receive(&StepSignal::Return(Box::new(args)));
    assert!(r.is_ok());
    let request = adapter.call_request();
    assert_eq!(request.callable, 1);
    assert!(request.receiver.is_none());
    match &request.argument {
        TaggedValue::Tuple(elems) => {
            assert!(matches!(elems[0], TaggedValue::Integer(2)));
            assert!(matches!(elems[1], TaggedValue::Integer(3)));
        }
        _ => panic!("expected the bound argument tuple"),
    }
    // The host computes 2 + 3 and the step returns it.
    let signal = SyncCallAdapter::complete_call(Ok(HostValue::Int(5)));
    match signal {
        StepSignal::Return(v) => assert!(matches!(*v, TaggedValue::Integer(5))),
        _ => panic!("expected a return signal"),
    }
}

#[test]
fn sync_adapter_maps_host_exception() {
    let exc = HostException { object: Some(13), detail: "boom".to_string() };
    let signal = SyncCallAdapter::complete_call(Err(exc));
    match signal {
        StepSignal::Error(BridgeError::CustomValue(v)) => {
            assert!(matches!(*v, TaggedValue::Custom(OpaqueHandle { host_ref: 13 })));
        }
        _ => panic!("expected a boxed foreign exception"),
    }
}

#[test]
fn sync_adapter_uncaptured_exception_degrades_to_text() {
    let exc = HostException { object: None, detail: "boom".to_string() };
    let signal = SyncCallAdapter::complete_call(Err(exc));
    match signal {
        StepSignal::Error(BridgeError::DetailedError(m)) => {
            assert_eq!(m, "Failed to capture host exception: boom");
        }
        _ => panic!("expected a detailed error"),
    }
}

#[test]
fn sync_receive_rejects_other_signals() {
    let mut adapter = SyncCallAdapter::new(1, None);
    let r = adapter.receive(&StepSignal::Continue);
    match r {
        Err(BridgeError::DetailedError(m)) => {
            assert_eq!(m, "Call adapter received an unexpected step result");
        }
        _ => panic!("expected the contract violation"),
    }
}

#[test]
fn sync_copy_replays_pending_call() {
    let mut adapter = SyncCallAdapter::new(4, None);
    let args = TaggedValue::Tuple(vec![TaggedValue::Integer(2), TaggedValue::Integer(3)]);
    adapter.receive(&StepSignal::Return(Box::new(args))).unwrap();
    adapter
        .receive(&StepSignal::SetSelfObject(Box::new(TaggedValue::Integer(9))))
        .unwrap();
    let copy = adapter.copy();
    let original_request = adapter.call_request();
    let copied_request = copy.call_request();
    assert_eq!(copied_request.callable, original_request.callable);
    assert!(value_equals(&copied_request.argument, &original_request.argument));
    match (&copied_request.receiver, &original_request.receiver) {
        (Some(a), Some(b)) => assert!(value_equals(a, b)),
        _ => panic!("expected both receivers bound"),
    }
}

#[test]
fn async_adapter_pending_then_return() {
    // A coroutine that waits and then yields 42: the first step leaves the
    // future pending, a later step finds it resolved.
    let mut adapter = AsyncCallAdapter::new(2, None);
    assert!(adapter.needs_invocation());
    let request = adapter.invocation_request();
    assert_eq!(request.callable, 2);
    adapter.future_stored();
    assert!(!adapter.needs_invocation());
    let first = adapter.poll_outcome(PollEvent::NotReady);
    assert!(matches!(first, StepSignal::Error(BridgeError::Pending)));
    assert!(!adapter.needs_invocation());
    let second = adapter.poll_outcome(PollEvent::Ready(Ok(HostValue::Int(42))));
    match second {
        StepSignal::Return(v) => assert!(matches!(*v, TaggedValue::Integer(42))),
        _ => panic!("expected the resolved value"),
    }
    assert!(adapter.needs_invocation());
}

#[test]
fn async_invocation_failure_is_immediate_error() {
    let adapter = AsyncCallAdapter::new(2, None);
    let exc = HostException { object: None, detail: "no awaitable".to_string() };
    let signal = adapter.invocation_failed(exc);
    assert!(matches!(signal, StepSignal::Error(BridgeError::DetailedError(_))));
}

#[test]
fn async_copy_discards_in_flight_future() {
    let mut adapter = AsyncCallAdapter::new(3, None);
    let args = TaggedValue::Tuple(vec![TaggedValue::Integer(1)]);
    adapter.receive(&StepSignal::Return(Box::new(args))).unwrap();
    adapter.future_stored();
    assert!(!adapter.needs_invocation());
    let copy = adapter.copy();
    assert!(copy.needs_invocation());
    assert_eq!(copy.coroutine, 3);
    assert!(value_equals(&copy.argument, &adapter.argument));
}

#[test]
fn async_receive_keeps_future_untouched() {
    let mut adapter = AsyncCallAdapter::new(3, None);
    adapter.future_stored();
    adapter
        .receive(&StepSignal::Return(Box::new(TaggedValue::Integer(8))))
        .unwrap();
    assert!(!adapter.needs_invocation());
}

#[test]
fn diagnostics_report_kind_and_future_state() {
    let sync = SyncCallAdapter::new(1, None);
    let d = sync.diagnostic();
    assert_eq!(d.kind, "SynchronousCallAdapter");
    assert_eq!(d.argument_tag, "Tuple");
    assert!(!d.future_active);
    let mut asynca = AsyncCallAdapter::new(2, None);
    asynca.future_stored();
    let d2 = asynca.diagnostic();
    assert_eq!(d2.kind, "AsynchronousCallAdapter");
    assert!(d2.future_active);
}

#[test]
fn set_attribute_always_fails() {
    for name in ["x", "value", "anything_at_all", ""] {
        let r = set_attribute(&TaggedValue::Integer(1), &name.to_string());
        match r {
            Err(BridgeError::InvalidOperation(m)) => {
                assert_eq!(
                    m,
                    format!("Cannot set attribute {} on an immutable engine value", name)
                );
            }
            _ => panic!("attribute assignment must fail"),
        }
    }
    let tuple = TaggedValue::Tuple(vec![TaggedValue::Null]);
    assert!(set_attribute(&tuple, &"k".to_string()).is_err());
}

#[test]
fn opaque_handles_never_equal() {
    let a = TaggedValue::Custom(OpaqueHandle { host_ref: 5 });
    let b = TaggedValue::Custom(OpaqueHandle { host_ref: 5 });
    assert!(!value_equals(&a, &b));
    assert!(!value_equals(&a, &a.deep_clone()));
    assert!(!custom_is_same(
        &OpaqueHandle { host_ref: 5 },
        &OpaqueHandle { host_ref: 5 },
    ));
}
