//! The call-adapter framework: the state machines through which the engine's
//! scheduler invokes host callables and coroutines.
//!
//! Every adapter satisfies one step/receive/copy/diagnostic contract.  A
//! full `step` of that contract is split here at the host boundary: the
//! adapter hands the unverified rim a `CallRequest` describing exactly what
//! to invoke, the rim performs the invocation while it holds the host
//! runtime's exclusive-access guard (acquired on entry to the host-call
//! section and released before the step returns, never across a suspension),
//! and the outcome comes back as plain data that the adapter turns into the
//! step's signal.  All decisions — what to invoke, how results and
//! exceptions become signals, what `receive` accepts, what a copy carries —
//! are made and proved here.

use vstd::prelude::*;
use vstd::string::StringExecFns;

use crate::bridge::converts_to;
use crate::bridge::host_to_engine;
use crate::bridge::HostValue;
use crate::errors::exception_maps_to;
use crate::errors::host_exception_to_engine;
use crate::errors::BridgeError;
use crate::errors::HostException;
use crate::ops::type_tag;
use crate::ops::type_tag_spec;
use crate::value::TaggedValue;

verus! {

/// One signal of the scheduler's step protocol.  Adapters in this layer only
/// ever produce `Return`, `Error` and — through `BridgeError::Pending` — the
/// pending control signal; the remaining variants exist because the
/// scheduler can hand any signal to `receive`, and the adapters must reject
/// the ones outside their contract.  The runnable payloads of the three
/// scheduling variants stay with the scheduler and are not carried here.
pub enum StepSignal {
    Continue,
    NewRunnable,
    ReplaceRunnable,
    SpawnRunnable,
    Return(Box<TaggedValue>),
    SetSelfObject(Box<TaggedValue>),
    Error(BridgeError),
}

/// Observable equality of two optional values: both absent, or both present
/// and observably equal.
pub open spec fn opt_obs_eq(a: Option<TaggedValue>, b: Option<TaggedValue>) -> bool {
    match (a, b) {
        (Option::None, Option::None) => true,
        (Option::Some(x), Option::Some(y)) => x.obs_eq(y),
        _ => false,
    }
}

/// What an adapter asks the rim to invoke: the host callable it holds (by
/// token), the receiver to thread into the call if one is bound, and the
/// current argument value.  The rim calls the callable with exactly
/// `(receiver-or-absent, argument)`.
pub struct CallRequest {
    pub callable: u64,
    pub receiver: Option<TaggedValue>,
    pub argument: TaggedValue,
}

/// A diagnostic snapshot of an adapter: its kind, its current argument
/// summarised by the engine type tag, and whether a suspended host future is
/// active.  Observability only; nothing reads it back into control flow.
pub struct AdapterDiagnostic {
    pub kind: String,
    pub argument_tag: String,
    pub future_active: bool,
}

/// The signal `receive` reports when a signal outside its contract arrives.
pub open spec fn receive_violation(e: BridgeError) -> bool {
    e matches BridgeError::DetailedError(m) && m@
        == "Call adapter received an unexpected step result"@
}

/// What a finished host invocation becomes: a successful host result is
/// converted by the value bridge and returned; a host exception crosses the
/// error bridge.  Never a suspension.
pub open spec fn call_outcome_signal(
    outcome: Result<HostValue, HostException>,
    s: StepSignal,
) -> bool {
    match outcome {
        Ok(h) => s matches StepSignal::Return(v) && converts_to(h, *v),
        Err(exc) => s matches StepSignal::Error(e) && exception_maps_to(exc, e),
    }
}

/// The synchronous call adapter: invokes a plain host callable, optionally
/// bound to a receiver.  State is the pending argument, the optional bound
/// receiver, and the shared callable reference; there is never an in-flight
/// future.
pub struct SyncCallAdapter {
    /// Token of the shared host-callable reference.
    pub callable: u64,
    /// The argument the next invocation will receive.
    pub argument: TaggedValue,
    /// The receiver threaded into the call, once one was bound.
    pub self_object: Option<TaggedValue>,
}

impl SyncCallAdapter {
    /// A fresh adapter over a host callable: the pending argument starts as
    /// the empty tuple.
    pub fn new(callable: u64, self_object: Option<TaggedValue>) -> (r: SyncCallAdapter)
        ensures
            r.callable == callable,
            r.argument matches TaggedValue::Tuple(es) && es@.len() == 0,
            r.self_object == self_object,
    {
        SyncCallAdapter { callable, argument: TaggedValue::Tuple(Vec::new()), self_object }
    }

    /// The invocation this adapter's `step` performs: its callable, with the
    /// bound receiver (or none) and the current argument.  Exactly one
    /// invocation per step.
    pub fn call_request(&self) -> (r: CallRequest)
        ensures
            r.callable == self.callable,
            r.argument.obs_eq(self.argument),
            opt_obs_eq(r.receiver, self.self_object),
    {
        let receiver = match &self.self_object {
            Option::Some(v) => Option::Some(v.deep_clone()),
            Option::None => Option::None,
        };
        CallRequest { callable: self.callable, receiver, argument: self.argument.deep_clone() }
    }

    /// Turns the outcome of the host invocation into the step's signal:
    /// `Return` of the bridged result, or `Error` of the bridged exception.
    /// A synchronous step never suspends: the signal is never the pending
    /// control signal.
    pub fn complete_call(outcome: Result<HostValue, HostException>) -> (s: StepSignal)
        ensures
            call_outcome_signal(outcome, s),
            s is Return || s is Error,
            !(s matches StepSignal::Error(e) && e is Pending),
    {
        match outcome {
            Ok(h) => StepSignal::Return(Box::new(host_to_engine(&h))),
            Err(exc) => StepSignal::Error(host_exception_to_engine(&exc)),
        }
    }

    /// Accepts a returned value as the next argument (call chaining) or a
    /// receiver-binding signal; any other signal is a contract violation and
    /// leaves the adapter untouched.
    pub fn receive(&mut self, signal: &StepSignal) -> (r: Result<(), BridgeError>)
        ensures
            match *signal {
                StepSignal::Return(v) => {
                    &&& r is Ok
                    &&& final(self).argument.obs_eq(*v)
                    &&& final(self).self_object == old(self).self_object
                    &&& final(self).callable == old(self).callable
                },
                StepSignal::SetSelfObject(v) => {
                    &&& r is Ok
                    &&& final(self).self_object matches Some(s) && s.obs_eq(*v)
                    &&& final(self).argument == old(self).argument
                    &&& final(self).callable == old(self).callable
                },
                _ => {
                    &&& r matches Err(e) && receive_violation(e)
                    &&& *final(self) == *old(self)
                },
            },
    {
        match signal {
            StepSignal::Return(v) => {
                self.argument = v.deep_clone();
                Ok(())
            },
            StepSignal::SetSelfObject(v) => {
                self.self_object = Option::Some(v.deep_clone());
                Ok(())
            },
            _ => Err(BridgeError::DetailedError(
                String::from_str("Call adapter received an unexpected step result"),
            )),
        }
    }

    /// An independent adapter with the same callable reference, the same
    /// pending argument and the same bound receiver: stepping the copy
    /// re-invokes the callable exactly as the adapter it was copied from
    /// would have.
    pub fn copy(&self) -> (r: SyncCallAdapter)
        ensures
            r.callable == self.callable,
            r.argument.obs_eq(self.argument),
            opt_obs_eq(r.self_object, self.self_object),
    {
        SyncCallAdapter {
            callable: self.callable,
            argument: self.argument.deep_clone(),
            self_object: match &self.self_object {
                Option::Some(v) => Option::Some(v.deep_clone()),
                Option::None => Option::None,
            },
        }
    }

    /// The diagnostic snapshot: kind, argument summary, and that no future
    /// is ever active on a synchronous adapter.
    pub fn diagnostic(&self) -> (r: AdapterDiagnostic)
        ensures
            r.kind@ == "SynchronousCallAdapter"@,
            r.argument_tag@ == type_tag_spec(self.argument),
            r.future_active == false,
    {
        AdapterDiagnostic {
            kind: String::from_str("SynchronousCallAdapter"),
            argument_tag: type_tag(&self.argument),
            future_active: false,
        }
    }
}

/// What polling the suspended host future produced, as the rim reports it.
pub enum PollEvent {
    /// The future is not ready; the scheduler will step again later.
    NotReady,
    /// The future resolved, to a host value or a host exception.
    Ready(Result<HostValue, HostException>),
}

/// The asynchronous call adapter: invokes a host coroutine template and
/// drives the resulting awaitable by polling, one poll per step, under a
/// no-op waker — the scheduler's repeated stepping is the wake mechanism.
/// State is the coroutine template, the pending argument, the optional bound
/// receiver, and whether the single in-flight future exists.  The future
/// itself is owned by the rim alongside this machine; `in_flight` says
/// whether it exists, and the machine's contracts keep it at most one.
pub struct AsyncCallAdapter {
    /// Token of the host coroutine template (the callable before
    /// invocation).
    pub coroutine: u64,
    /// The argument the next invocation will receive.
    pub argument: TaggedValue,
    /// The receiver threaded into the call, once one was bound.
    pub self_object: Option<TaggedValue>,
    /// Whether a suspended host future is currently in flight.  A fresh
    /// step only creates one if none exists.
    pub in_flight: bool,
}

impl AsyncCallAdapter {
    /// A fresh adapter over a host coroutine template: the pending argument
    /// starts as the empty tuple and no future is in flight.
    pub fn new(coroutine: u64, self_object: Option<TaggedValue>) -> (r: AsyncCallAdapter)
        ensures
            r.coroutine == coroutine,
            r.argument matches TaggedValue::Tuple(es) && es@.len() == 0,
            r.self_object == self_object,
            r.in_flight == false,
    {
        AsyncCallAdapter {
            coroutine,
            argument: TaggedValue::Tuple(Vec::new()),
            self_object,
            in_flight: false,
        }
    }

    /// Whether this step must first invoke the coroutine template: exactly
    /// when no future is in flight.
    pub fn needs_invocation(&self) -> (r: bool)
        ensures
            r == !self.in_flight,
    {
        !self.in_flight
    }

    /// The invocation that obtains the host awaitable: the coroutine
    /// template, with the bound receiver (or none) and the current argument.
    pub fn invocation_request(&self) -> (r: CallRequest)
        requires
            !self.in_flight,
        ensures
            r.callable == self.coroutine,
            r.argument.obs_eq(self.argument),
            opt_obs_eq(r.receiver, self.self_object),
    {
        let receiver = match &self.self_object {
            Option::Some(v) => Option::Some(v.deep_clone()),
            Option::None => Option::None,
        };
        CallRequest { callable: self.coroutine, receiver, argument: self.argument.deep_clone() }
    }

    /// Failure to obtain or adapt the awaitable is an immediate error; no
    /// future came into flight and the adapter is unchanged.
    pub fn invocation_failed(&self, exc: HostException) -> (s: StepSignal)
        ensures
            s matches StepSignal::Error(e) && exception_maps_to(exc, e),
            !(s matches StepSignal::Error(e) && e is Pending),
    {
        StepSignal::Error(host_exception_to_engine(&exc))
    }

    /// Records that the rim adapted the awaitable and stored the future:
    /// the single in-flight future now exists.
    pub fn future_stored(&mut self)
        requires
            !self.in_flight,
        ensures
            final(self).in_flight == true,
            final(self).coroutine == old(self).coroutine,
            final(self).argument == old(self).argument,
            final(self).self_object == old(self).self_object,
    {
        self.in_flight = true;
    }

    /// Turns the result of the step's single poll into the step's signal.
    /// A ready future is discarded the instant it resolves, successfully or
    /// with an error, and its value crosses the value or error bridge; a
    /// future that is not ready surfaces the pending control signal — not a
    /// terminal error — without mutating any other state, and stays in
    /// flight for the next step.
    pub fn poll_outcome(&mut self, ev: PollEvent) -> (s: StepSignal)
        requires
            old(self).in_flight,
        ensures
            final(self).coroutine == old(self).coroutine,
            final(self).argument == old(self).argument,
            final(self).self_object == old(self).self_object,
            match ev {
                PollEvent::NotReady => {
                    &&& s == StepSignal::Error(BridgeError::Pending)
                    &&& *final(self) == *old(self)
                },
                PollEvent::Ready(outcome) => {
                    &&& final(self).in_flight == false
                    &&& call_outcome_signal(outcome, s)
                },
            },
    {
        match ev {
            PollEvent::NotReady => StepSignal::Error(BridgeError::Pending),
            PollEvent::Ready(outcome) => {
                self.in_flight = false;
                match outcome {
                    Ok(h) => StepSignal::Return(Box::new(host_to_engine(&h))),
                    Err(exc) => StepSignal::Error(host_exception_to_engine(&exc)),
                }
            },
        }
    }

    /// Accepts a returned value as the next argument or a receiver-binding
    /// signal, exactly as the synchronous adapter does; the in-flight future
    /// is untouched either way.
    pub fn receive(&mut self, signal: &StepSignal) -> (r: Result<(), BridgeError>)
        ensures
            final(self).in_flight == old(self).in_flight,
            final(self).coroutine == old(self).coroutine,
            match *signal {
                StepSignal::Return(v) => {
                    &&& r is Ok
                    &&& final(self).argument.obs_eq(*v)
                    &&& final(self).self_object == old(self).self_object
                },
                StepSignal::SetSelfObject(v) => {
                    &&& r is Ok
                    &&& final(self).self_object matches Some(s) && s.obs_eq(*v)
                    &&& final(self).argument == old(self).argument
                },
                _ => {
                    &&& r matches Err(e) && receive_violation(e)
                    &&& *final(self) == *old(self)
                },
            },
    {
        match signal {
            StepSignal::Return(v) => {
                self.argument = v.deep_clone();
                Ok(())
            },
            StepSignal::SetSelfObject(v) => {
                self.self_object = Option::Some(v.deep_clone());
                Ok(())
            },
            _ => Err(BridgeError::DetailedError(
                String::from_str("Call adapter received an unexpected step result"),
            )),
        }
    }

    /// An independent adapter with the same coroutine template, argument and
    /// receiver, and — the documented asymmetry — never a future in flight:
    /// a copy taken mid-flight starts idle, discards the suspension
    /// progress, and will re-invoke the coroutine template from scratch on
    /// its next step.
    pub fn copy(&self) -> (r: AsyncCallAdapter)
        ensures
            r.coroutine == self.coroutine,
            r.argument.obs_eq(self.argument),
            opt_obs_eq(r.self_object, self.self_object),
            r.in_flight == false,
    {
        AsyncCallAdapter {
            coroutine: self.coroutine,
            argument: self.argument.deep_clone(),
            self_object: match &self.self_object {
                Option::Some(v) => Option::Some(v.deep_clone()),
                Option::None => Option::None,
            },
            in_flight: false,
        }
    }

    /// The diagnostic snapshot: kind, argument summary, and whether the
    /// future is active or idle.
    pub fn diagnostic(&self) -> (r: AdapterDiagnostic)
        ensures
            r.kind@ == "AsynchronousCallAdapter"@,
            r.argument_tag@ == type_tag_spec(self.argument),
            r.future_active == self.in_flight,
    {
        AdapterDiagnostic {
            kind: String::from_str("AsynchronousCallAdapter"),
            argument_tag: type_tag(&self.argument),
            future_active: self.in_flight,
        }
    }
}

} // verus!
