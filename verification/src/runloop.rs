//! The decision core of the run loop that drives a compiled program's
//! scheduler.  The unverified rim owns the scheduler and the loop: it steps
//! the scheduler, hands each signal to `run_step_decision`, and acts on the
//! decision — yielding and stepping again, adopting a replacement runnable,
//! or finishing with the unwrapped result.  Which signal leads where, and
//! how the program's final pair is unwrapped, is decided and proved here.

use vstd::prelude::*;
use vstd::string::StringExecFns;

use crate::adapter::StepSignal;
use crate::errors::engine_error_to_host;
use crate::errors::error_message_spec;
use crate::ops::type_tag;
use crate::ops::type_tag_spec;
use crate::value::TaggedValue;

verus! {

/// What the run loop does with one scheduler signal.
pub enum RunDecision {
    /// Yield to the surrounding runtime and step the scheduler again.
    KeepGoing,
    /// Replace the scheduler with a copy of the runnable the signal carries,
    /// yield, and step again.
    AdoptReplacement,
    /// The run is over: the program's value, or the failure text.
    Finished(Result<TaggedValue, String>),
}

/// The text reported when a program finishes unsuccessfully: the failure
/// value itself when it is text, a summary by type tag otherwise.
pub open spec fn failure_text_spec(v: TaggedValue) -> Seq<char> {
    match v {
        TaggedValue::Text(s) => s@,
        _ => "script failed with a value of type "@ + type_tag_spec(v),
    }
}

/// What unwrapping the program's returned value yields.  A program returns a
/// pair of a success flag and a value: on true the value is the result, on
/// false the value describes the failure.  Anything else is a malformed
/// result.
pub open spec fn unwrap_result_spec(v: TaggedValue, r: Result<TaggedValue, String>) -> bool {
    match v {
        TaggedValue::Pair(k, val) => match *k {
            TaggedValue::Boolean(true) => r matches Ok(out) && out.obs_eq(*val),
            TaggedValue::Boolean(false) => r matches Err(m) && m@ == failure_text_spec(*val),
            _ => r matches Err(m) && m@ == "Failed to get success key of the result pair"@,
        },
        _ => r matches Err(m) && m@ == "Result of execution is not a pair"@,
    }
}

/// Unwraps the value a finished program returned.
pub fn unwrap_run_result(v: &TaggedValue) -> (r: Result<TaggedValue, String>)
    ensures
        unwrap_result_spec(*v, r),
{
    match v {
        TaggedValue::Pair(k, val) => match &**k {
            TaggedValue::Boolean(true) => Ok(val.deep_clone()),
            TaggedValue::Boolean(false) => match &**val {
                TaggedValue::Text(s) => Err(s.clone()),
                _ => Err(
                    String::from_str("script failed with a value of type ").concat(
                        type_tag(val).as_str(),
                    ),
                ),
            },
            _ => Err(String::from_str("Failed to get success key of the result pair")),
        },
        _ => Err(String::from_str("Result of execution is not a pair")),
    }
}

/// Decides what the run loop does with one scheduler signal.  Only
/// `Continue`, `ReplaceRunnable` and `Return` keep a well-formed run alive
/// or end it with a value; an error signal ends the run with the rendered
/// error; the remaining signals are not supported at the top level of a run
/// and end it with a text saying so.
pub fn run_step_decision(signal: &StepSignal) -> (d: RunDecision)
    ensures
        match *signal {
            StepSignal::Continue => d == RunDecision::KeepGoing,
            StepSignal::ReplaceRunnable => d == RunDecision::AdoptReplacement,
            StepSignal::Return(v) => d matches RunDecision::Finished(r) && unwrap_result_spec(
                *v,
                r,
            ),
            StepSignal::Error(e) => d matches RunDecision::Finished(r) && r matches Err(m) && m@
                == "Execution error: "@ + error_message_spec(e),
            StepSignal::SetSelfObject(_) => d matches RunDecision::Finished(r) && r matches Err(m)
                && m@ == "Invalid operation: SetSelfObject is not supported"@,
            StepSignal::NewRunnable => d matches RunDecision::Finished(r) && r matches Err(m)
                && m@ == "Invalid operation: NewRunnable is not supported"@,
            StepSignal::SpawnRunnable => d matches RunDecision::Finished(r) && r matches Err(m)
                && m@ == "Invalid operation: SpawnRunnable is not supported"@,
        },
{
    match signal {
        StepSignal::Continue => RunDecision::KeepGoing,
        StepSignal::ReplaceRunnable => RunDecision::AdoptReplacement,
        StepSignal::Return(v) => RunDecision::Finished(unwrap_run_result(v)),
        StepSignal::Error(e) => RunDecision::Finished(
            Err(
                String::from_str("Execution error: ").concat(
                    engine_error_to_host(e).as_str(),
                ),
            ),
        ),
        StepSignal::SetSelfObject(_) => RunDecision::Finished(
            Err(String::from_str("Invalid operation: SetSelfObject is not supported")),
        ),
        StepSignal::NewRunnable => RunDecision::Finished(
            Err(String::from_str("Invalid operation: NewRunnable is not supported")),
        ),
        StepSignal::SpawnRunnable => RunDecision::Finished(
            Err(String::from_str("Invalid operation: SpawnRunnable is not supported")),
        ),
    }
}

} // verus!
