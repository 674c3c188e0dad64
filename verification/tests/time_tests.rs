use onion_bridge::adapter::StepSignal;
use onion_bridge::errors::BridgeError;
use onion_bridge::ops::build_named_dict;
use onion_bridge::runloop::run_step_decision;
use onion_bridge::runloop::unwrap_run_result;
use onion_bridge::runloop::RunDecision;
use onion_bridge::textnum::i64_to_text;
use onion_bridge::textnum::text_to_i64;
use onion_bridge::textnum::u64_to_text;
use onion_bridge::textnum::u64_to_text_padded;
use onion_bridge::timelib;
use onion_bridge::value::TaggedValue;
use onion_bridge::AsyncSleep;
use onion_bridge::format_timestamp;

fn ival(v: i64) -> TaggedValue {
    TaggedValue::Integer(v)
}

fn dict(entries: Vec<(&str, TaggedValue)>) -> TaggedValue {
    build_named_dict(
        entries.into_iter().map(|(k, v)| (k.to_string(), v)).collect(),
    )
}

#[test]
fn decimal_rendering() {
    assert_eq!(u64_to_text(0), "0");
    assert_eq!(u64_to_text(90210), "90210");
    assert_eq!(i64_to_text(-42), "-42");
    assert_eq!(i64_to_text(i64::MIN), "-9223372036854775808");
    assert_eq!(u64_to_text_padded(7, 4), "0007");
    assert_eq!(u64_to_text_padded(12345, 4), "12345");
}

#[test]
fn decimal_parsing() {
    assert_eq!(text_to_i64("42"), Some(42));
    assert_eq!(text_to_i64("-42"), Some(-42));
    assert_eq!(text_to_i64("+7"), Some(7));
    assert_eq!(text_to_i64("9223372036854775807"), Some(i64::MAX));
    assert_eq!(text_to_i64("-9223372036854775808"), Some(i64::MIN));
    assert_eq!(text_to_i64("9223372036854775808"), None);
    assert_eq!(text_to_i64(""), None);
    assert_eq!(text_to_i64("-"), None);
    assert_eq!(text_to_i64("12a"), None);
    assert_eq!(text_to_i64("999999999999999999999999"), None);
}

#[test]
fn timestamp_formatting() {
    assert_eq!(format_timestamp(0), "1970-01-01 00:00:00 UTC");
    // Three whole days plus 01:01:01 into the fourth, in the simplified
    // 365/30 calendar.
    assert_eq!(format_timestamp(3 * 86400 + 3661), "1970-01-04 01:01:01 UTC");
    assert_eq!(format_timestamp(86400 * 365), "1971-01-01 00:00:00 UTC");
}

#[test]
fn format_time_function() {
    match timelib::format_time(&dict(vec![("timestamp", ival(0))])) {
        Ok(TaggedValue::Text(s)) => assert_eq!(s, "1970-01-01 00:00:00 UTC"),
        _ => panic!("expected the formatted text"),
    }
    match timelib::format_time(&dict(vec![("timestamp", ival(-1))])) {
        Err(BridgeError::DetailedError(m)) => assert_eq!(m, "Timestamp cannot be negative"),
        _ => panic!("expected the negative-timestamp error"),
    }
}

#[test]
fn time_difference() {
    match timelib::time_diff(&dict(vec![("start", ival(100)), ("end", ival(260))])) {
        Ok(TaggedValue::Integer(n)) => assert_eq!(n, 160),
        _ => panic!("expected the difference"),
    }
}

#[test]
fn timestamp_reads_report_integers() {
    let arg = dict(vec![]);
    assert!(matches!(
        timelib::timestamp(&arg),
        Ok(TaggedValue::Integer(_))
    ));
    assert!(matches!(
        timelib::timestamp_millis(&arg),
        Ok(TaggedValue::Integer(_))
    ));
    assert!(matches!(timelib::now_utc(&arg), Ok(TaggedValue::Text(_))));
}

#[test]
fn sleep_validation() {
    match timelib::sleep_millis(&dict(vec![("millis", ival(250))])) {
        Ok(ms) => assert_eq!(ms, 250),
        _ => panic!("expected the validated span"),
    }
    assert!(timelib::sleep_millis(&dict(vec![("millis", ival(-1))])).is_err());
    assert!(timelib::sleep_seconds(&dict(vec![("seconds", ival(-1))])).is_err());
    match timelib::sleep_micros(&dict(vec![("micros", ival(10))])) {
        Ok(us) => assert_eq!(us, 10),
        _ => panic!("expected the validated span"),
    }
}

#[test]
fn async_sleep_steps() {
    let sleep = AsyncSleep::new(1000, 5000);
    assert!(matches!(sleep.step_at(5500), StepSignal::Continue));
    match sleep.step_at(6000) {
        StepSignal::Return(v) => assert!(matches!(*v, TaggedValue::Null)),
        _ => panic!("expected the sleep to finish"),
    }
    let copy = sleep.copy();
    assert_eq!(copy.millis, 1000);
    assert_eq!(copy.start_millis, 5000);
    let mut live = AsyncSleep::new(0, 0);
    assert!(matches!(
        live.step(),
        StepSignal::Return(_) | StepSignal::Continue | StepSignal::Error(_)
    ));
    assert!(live.receive(&StepSignal::Continue).is_ok());
}

#[test]
fn async_sleep_construction() {
    match timelib::async_sleep(&dict(vec![("millis", ival(64))])) {
        Ok(sl) => assert_eq!(sl.millis, 64),
        _ => panic!("expected the sleep runnable"),
    }
    assert!(timelib::async_sleep(&dict(vec![("millis", ival(-5))])).is_err());
    let default_sleep = AsyncSleep::default();
    assert_eq!(default_sleep.millis, 1000);
}

#[test]
fn run_loop_decisions() {
    assert!(matches!(
        run_step_decision(&StepSignal::Continue),
        RunDecision::KeepGoing
    ));
    assert!(matches!(
        run_step_decision(&StepSignal::ReplaceRunnable),
        RunDecision::AdoptReplacement
    ));
    match run_step_decision(&StepSignal::SpawnRunnable) {
        RunDecision::Finished(Err(m)) => {
            assert_eq!(m, "Invalid operation: SpawnRunnable is not supported");
        }
        _ => panic!("expected the unsupported-signal text"),
    }
    match run_step_decision(&StepSignal::Error(BridgeError::InvalidType("t".to_string()))) {
        RunDecision::Finished(Err(m)) => {
            assert_eq!(m, "Execution error: Invalid type: t");
        }
        _ => panic!("expected the rendered error"),
    }
}

#[test]
fn run_result_unwrapping() {
    let ok_pair = TaggedValue::Pair(
        Box::new(TaggedValue::Boolean(true)),
        Box::new(TaggedValue::Integer(9)),
    );
    match unwrap_run_result(&ok_pair) {
        Ok(TaggedValue::Integer(n)) => assert_eq!(n, 9),
        _ => panic!("expected the program's value"),
    }
    let failed_pair = TaggedValue::Pair(
        Box::new(TaggedValue::Boolean(false)),
        Box::new(TaggedValue::Text("bad input".to_string())),
    );
    match unwrap_run_result(&failed_pair) {
        Err(m) => assert_eq!(m, "bad input"),
        _ => panic!("expected the failure text"),
    }
    assert!(unwrap_run_result(&TaggedValue::Null).is_err());
    let odd_pair = TaggedValue::Pair(
        Box::new(TaggedValue::Integer(1)),
        Box::new(TaggedValue::Null),
    );
    assert!(unwrap_run_result(&odd_pair).is_err());
}
