//! The time utilities the engine's standard library exposes: timestamp
//! reads, a simplified calendar formatter, timestamp arithmetic, and the
//! cooperative sleep runnable.  Reading the clock is the one outside call
//! here, behind a trusted wrapper; everything computed from a clock sample
//! is verified.

use vstd::prelude::*;
use vstd::string::StringExecFns;

use crate::adapter::StepSignal;
use crate::errors::BridgeError;
use crate::ops::attr_find_text;
use crate::ops::lemma_attr_find_text;
use crate::ops::attr_lookup;
use crate::textnum::padded_text;
use crate::textnum::u64_to_text_padded;
use crate::value::TaggedValue;

verus! {

/// Relies on `std::time::SystemTime::now` and
/// `SystemTime::duration_since(UNIX_EPOCH)`: a clock sample, reported as
/// whole milliseconds since the epoch, or nothing when the system clock
/// reads before the epoch or past the range of the counter.  Nothing is
/// promised of the value: the clock is not a function of the program.
#[verifier::external_body]
fn now_unix_millis() -> Option<u64>
{
    match std::time::SystemTime::now().duration_since(std::time::UNIX_EPOCH) {
        Ok(d) => u64::try_from(d.as_millis()).ok(),
        Err(_) => None,
    }
}

/// Relies on `std::time::SystemTime::now` and
/// `SystemTime::duration_since(UNIX_EPOCH)`: a clock sample in whole
/// seconds since the epoch, or nothing when the clock reads before the
/// epoch.  Nothing is promised of the value.
#[verifier::external_body]
fn now_unix_seconds() -> Option<u64>
{
    match std::time::SystemTime::now().duration_since(std::time::UNIX_EPOCH) {
        Ok(d) => Some(d.as_secs()),
        Err(_) => None,
    }
}

/// Relies on `std::time::SystemTime::now` and
/// `SystemTime::duration_since(UNIX_EPOCH)`: a clock sample in whole
/// nanoseconds since the epoch, or nothing when the clock reads before the
/// epoch or past the range of the counter.  Nothing is promised of the
/// value.
#[verifier::external_body]
fn now_unix_nanos() -> Option<u64>
{
    match std::time::SystemTime::now().duration_since(std::time::UNIX_EPOCH) {
        Ok(d) => u64::try_from(d.as_nanos()).ok(),
        Err(_) => None,
    }
}

/// The simplified calendar rendering of a timestamp: years of a flat 365
/// days and months of a flat 30 days, with each field zero-padded, and a
/// fixed zone suffix.
pub open spec fn timestamp_text(ts: nat) -> Seq<char> {
    let days = ts / 86400;
    let year = 1970 + days / 365;
    let day_of_year = days % 365;
    let month = day_of_year / 30 + 1;
    let day = day_of_year % 30 + 1;
    let rem = ts % 86400;
    let hour = rem / 3600;
    let minute = (rem % 3600) / 60;
    let second = rem % 60;
    padded_text(year, 4) + "-"@ + padded_text(month, 2) + "-"@ + padded_text(day, 2) + " "@
        + padded_text(hour, 2) + ":"@ + padded_text(minute, 2) + ":"@ + padded_text(second, 2)
        + " UTC"@
}

/// Renders a timestamp of whole seconds as a date-time text, using the
/// simplified calendar: years of a flat 365 days and months of a flat 30
/// days, no leap handling.
pub fn format_timestamp(timestamp: u64) -> (s: String)
    ensures
        s@ == timestamp_text(timestamp as nat),
{
    let days = timestamp / 86400;
    let year = 1970 + days / 365;
    let day_of_year = days % 365;
    let month = day_of_year / 30 + 1;
    let day = day_of_year % 30 + 1;
    let rem = timestamp % 86400;
    let hour = rem / 3600;
    let minute = (rem % 3600) / 60;
    let second = rem % 60;
    let mut out = u64_to_text_padded(year, 4);
    out.append("-");
    out.append(u64_to_text_padded(month, 2).as_str());
    out.append("-");
    out.append(u64_to_text_padded(day, 2).as_str());
    out.append(" ");
    out.append(u64_to_text_padded(hour, 2).as_str());
    out.append(":");
    out.append(u64_to_text_padded(minute, 2).as_str());
    out.append(":");
    out.append(u64_to_text_padded(second, 2).as_str());
    out.append(" UTC");
    proof {
        assert(out@ =~= timestamp_text(timestamp as nat));
    }
    out
}

/// Reads an integer attribute out of a stdlib argument dictionary, or
/// reports the typed error carrying the given text.
fn int_attribute(argument: &TaggedValue, key: &str, bad: &str) -> (r: Result<i64, BridgeError>)
    ensures
        match attr_find_text(*argument, key@) {
            Option::Some(v) => match v {
                TaggedValue::Integer(i) => r == Ok::<i64, BridgeError>(i),
                _ => r matches Err(e) && e matches BridgeError::InvalidType(m) && m@ == bad@,
            },
            Option::None => r matches Err(e) && e matches BridgeError::InvalidType(m) && m@
                == bad@,
        },
{
    let key_value = TaggedValue::Text(key.to_string());
    proof {
        lemma_attr_find_text(*argument, key_value->Text_0);
    }
    match attr_lookup(argument, &key_value) {
        Ok(v) => match v {
            TaggedValue::Integer(i) => Ok(i),
            _ => Err(BridgeError::InvalidType(bad.to_string())),
        },
        Err(_) => Err(BridgeError::InvalidType(bad.to_string())),
    }
}

/// The stdlib's current-timestamp function, in whole seconds: an engine
/// integer from a clock sample, or a detailed error when no sample could be
/// taken.  The value depends on the clock, so only the shape is promised.
pub fn timestamp(_argument: &TaggedValue) -> (r: Result<TaggedValue, BridgeError>)
    ensures
        r matches Ok(v) ==> v is Integer,
        r matches Err(e) ==> (e matches BridgeError::DetailedError(m) && m@
            == "Failed to get timestamp"@),
{
    match now_unix_seconds() {
        Option::Some(secs) => Ok(TaggedValue::Integer(clamp_to_i64(secs))),
        Option::None => Err(BridgeError::DetailedError(
            String::from_str("Failed to get timestamp"),
        )),
    }
}

/// The stdlib's current-timestamp function, in whole milliseconds.
pub fn timestamp_millis(_argument: &TaggedValue) -> (r: Result<TaggedValue, BridgeError>)
    ensures
        r matches Ok(v) ==> v is Integer,
        r matches Err(e) ==> (e matches BridgeError::DetailedError(m) && m@
            == "Failed to get timestamp"@),
{
    match now_unix_millis() {
        Option::Some(ms) => Ok(TaggedValue::Integer(clamp_to_i64(ms))),
        Option::None => Err(BridgeError::DetailedError(
            String::from_str("Failed to get timestamp"),
        )),
    }
}

/// The stdlib's current-timestamp function, in whole nanoseconds.
pub fn timestamp_nanos(_argument: &TaggedValue) -> (r: Result<TaggedValue, BridgeError>)
    ensures
        r matches Ok(v) ==> v is Integer,
        r matches Err(e) ==> (e matches BridgeError::DetailedError(m) && m@
            == "Failed to get timestamp"@),
{
    match now_unix_nanos() {
        Option::Some(ns) => Ok(TaggedValue::Integer(clamp_to_i64(ns))),
        Option::None => Err(BridgeError::DetailedError(
            String::from_str("Failed to get timestamp"),
        )),
    }
}

/// A clock sample clamped into the engine's integer when it exceeds its
/// range.
fn clamp_to_i64(n: u64) -> (r: i64)
    ensures
        n <= i64::MAX as u64 ==> r == n as i64,
{
    if n <= 9223372036854775807u64 {
        n as i64
    } else {
        i64::MAX
    }
}

/// The stdlib's current-time rendering: the formatted simplified-calendar
/// text of a clock sample, or a detailed error when no sample could be
/// taken.
pub fn now_utc(_argument: &TaggedValue) -> (r: Result<TaggedValue, BridgeError>)
    ensures
        r matches Ok(v) ==> v is Text,
        r matches Err(e) ==> (e matches BridgeError::DetailedError(m) && m@
            == "Failed to get current time"@),
{
    match now_unix_seconds() {
        Option::Some(secs) => Ok(TaggedValue::Text(format_timestamp(secs))),
        Option::None => Err(BridgeError::DetailedError(
            String::from_str("Failed to get current time"),
        )),
    }
}

/// The stdlib's timestamp formatter: reads the `timestamp` attribute of the
/// argument, rejects a negative one, and renders the rest with the
/// simplified calendar.
pub fn format_time(argument: &TaggedValue) -> (r: Result<TaggedValue, BridgeError>)
    ensures
        match attr_find_text(*argument, "timestamp"@) {
            Option::Some(v) => match v {
                TaggedValue::Integer(ts) => {
                    if ts < 0 {
                        r matches Err(e) && e matches BridgeError::DetailedError(m) && m@
                            == "Timestamp cannot be negative"@
                    } else {
                        r matches Ok(out) && out matches TaggedValue::Text(t) && t@
                            == timestamp_text(ts as nat)
                    }
                },
                _ => r matches Err(e) && e is InvalidType,
            },
            Option::None => r matches Err(e) && e is InvalidType,
        },
{
    let ts = int_attribute(argument, "timestamp", "Invalid timestamp")?;
    if ts < 0 {
        return Err(BridgeError::DetailedError(
            String::from_str("Timestamp cannot be negative"),
        ));
    }
    Ok(TaggedValue::Text(format_timestamp(ts as u64)))
}

/// The stdlib's timestamp difference: reads the `start` and `end`
/// attributes and yields their difference in whole seconds, wrapping as the
/// engine's fixed-width integers do.
pub fn time_diff(argument: &TaggedValue) -> (r: Result<TaggedValue, BridgeError>)
    ensures
        match attr_find_text(*argument, "start"@) {
            Option::Some(sv) => match sv {
                TaggedValue::Integer(s) => match attr_find_text(*argument, "end"@) {
                    Option::Some(ev) => match ev {
                        TaggedValue::Integer(e) => r == Ok::<TaggedValue, BridgeError>(
                            TaggedValue::Integer(e.wrapping_sub(s)),
                        ),
                        _ => r matches Err(err) && err is InvalidType,
                    },
                    Option::None => r matches Err(err) && err is InvalidType,
                },
                _ => r matches Err(err) && err is InvalidType,
            },
            Option::None => r matches Err(err) && err is InvalidType,
        },
{
    let start = int_attribute(argument, "start", "Invalid start timestamp")?;
    let end = int_attribute(argument, "end", "Invalid end timestamp")?;
    Ok(TaggedValue::Integer(end.wrapping_sub(start)))
}

/// The cooperative sleep runnable: returns the engine's null value once the
/// requested span has elapsed, and yields a continue signal until then.
/// The clock sample is taken once at creation and once per step.
pub struct AsyncSleep {
    /// The span to sleep, in milliseconds.
    pub millis: i64,
    /// The clock sample taken when the sleep began, in epoch milliseconds.
    pub start_millis: u64,
}

/// What one step of the sleep decides, given the elapsed milliseconds: done
/// exactly when the span is non-negative and has elapsed.  A negative span
/// never finishes; its unsigned reading is unreachably large.
pub open spec fn sleep_done(elapsed: u64, millis: i64) -> bool {
    millis >= 0 && elapsed >= millis as u64
}

impl AsyncSleep {
    /// A sleep of the given span starting at the given clock sample.
    pub fn new(millis: i64, start_millis: u64) -> (r: AsyncSleep)
        ensures
            r.millis == millis,
            r.start_millis == start_millis,
    {
        AsyncSleep { millis, start_millis }
    }

    /// The decision core of one step, from the clock sample the step took:
    /// the engine's null value when the span has elapsed, a continue signal
    /// otherwise.
    pub fn step_at(&self, now_millis: u64) -> (s: StepSignal)
        ensures
            sleep_done(now_millis.wrapping_sub(self.start_millis), self.millis) ==> (s matches
                StepSignal::Return(v) && *v == TaggedValue::Null),
            !sleep_done(now_millis.wrapping_sub(self.start_millis), self.millis) ==> s
                == StepSignal::Continue,
    {
        let elapsed = now_millis.wrapping_sub(self.start_millis);
        if self.millis >= 0 && elapsed >= self.millis as u64 {
            StepSignal::Return(Box::new(TaggedValue::Null))
        } else {
            StepSignal::Continue
        }
    }

    /// One step of the sleep: samples the clock and decides.  The sample is
    /// the clock's business; every outcome is a return of null, a continue
    /// signal, or a detailed error when no sample could be taken.
    pub fn step(&mut self) -> (s: StepSignal)
        ensures
            *final(self) == *old(self),
            s is Return || s is Continue || s is Error,
            s matches StepSignal::Return(v) ==> *v == TaggedValue::Null,
            s matches StepSignal::Error(e) ==> (e matches BridgeError::DetailedError(m) && m@
                == "Failed to get elapsed time"@),
    {
        match now_unix_millis() {
            Option::Some(now) => self.step_at(now),
            Option::None => StepSignal::Error(BridgeError::DetailedError(
                String::from_str("Failed to get elapsed time"),
            )),
        }
    }

    /// The sleep accepts any signal and ignores it.
    pub fn receive(&mut self, signal: &StepSignal) -> (r: Result<(), BridgeError>)
        ensures
            r is Ok,
            *final(self) == *old(self),
    {
        Ok(())
    }

    /// An independent sleep with the same span and the same start sample.
    pub fn copy(&self) -> (r: AsyncSleep)
        ensures
            r.millis == self.millis,
            r.start_millis == self.start_millis,
    {
        AsyncSleep { millis: self.millis, start_millis: self.start_millis }
    }

    /// The diagnostic snapshot: the span and the start sample.
    pub fn diagnostic(&self) -> (r: (i64, u64))
        ensures
            r.0 == self.millis,
            r.1 == self.start_millis,
    {
        (self.millis, self.start_millis)
    }
}

impl Default for AsyncSleep {
    /// A sleep of one second starting at the clock sample taken now (zero
    /// when no sample could be taken).
    fn default() -> (r: AsyncSleep)
        ensures
            r.millis == 1000,
    {
        let start = match now_unix_millis() {
            Option::Some(now) => now,
            Option::None => 0,
        };
        AsyncSleep { millis: 1000, start_millis: start }
    }
}

/// The stdlib's asynchronous sleep: reads the `millis` attribute, rejects a
/// negative span, and builds the sleep runnable starting at the clock
/// sample taken now.
pub fn async_sleep(argument: &TaggedValue) -> (r: Result<AsyncSleep, BridgeError>)
    ensures
        match attr_find_text(*argument, "millis"@) {
            Option::Some(v) => match v {
                TaggedValue::Integer(ms) => {
                    if ms < 0 {
                        r matches Err(e) && e matches BridgeError::DetailedError(m) && m@
                            == "Sleep duration cannot be negative"@
                    } else {
                        r matches Ok(sl) && sl.millis == ms
                    }
                },
                _ => r matches Err(e) && e is InvalidType,
            },
            Option::None => r matches Err(e) && e is InvalidType,
        },
{
    let millis = int_attribute(argument, "millis", "Invalid milliseconds")?;
    if millis < 0 {
        return Err(BridgeError::DetailedError(
            String::from_str("Sleep duration cannot be negative"),
        ));
    }
    let start = match now_unix_millis() {
        Option::Some(now) => now,
        Option::None => 0,
    };
    Ok(AsyncSleep { millis, start_millis: start })
}

/// The stdlib's blocking sleeps hand the validated span to the rim, which
/// performs the actual wait: reads the given attribute, rejects a negative
/// span, and yields the span to wait.
pub fn sleep_span(argument: &TaggedValue, key: &str, bad: &str) -> (r: Result<u64, BridgeError>)
    ensures
        match attr_find_text(*argument, key@) {
            Option::Some(v) => match v {
                TaggedValue::Integer(n) => {
                    if n < 0 {
                        r matches Err(e) && e matches BridgeError::DetailedError(m) && m@
                            == "Sleep duration cannot be negative"@
                    } else {
                        r == Ok::<u64, BridgeError>(n as u64)
                    }
                },
                _ => r matches Err(e) && e matches BridgeError::InvalidType(m) && m@ == bad@,
            },
            Option::None => r matches Err(e) && e matches BridgeError::InvalidType(m) && m@
                == bad@,
        },
{
    let n = int_attribute(argument, key, bad)?;
    if n < 0 {
        return Err(BridgeError::DetailedError(
            String::from_str("Sleep duration cannot be negative"),
        ));
    }
    Ok(n as u64)
}

/// Validation for the stdlib's sleep in whole seconds.
pub fn sleep_seconds(argument: &TaggedValue) -> (r: Result<u64, BridgeError>)
    ensures
        match attr_find_text(*argument, "seconds"@) {
            Option::Some(v) => match v {
                TaggedValue::Integer(n) => {
                    if n < 0 {
                        r matches Err(e) && e is DetailedError
                    } else {
                        r == Ok::<u64, BridgeError>(n as u64)
                    }
                },
                _ => r matches Err(e) && e is InvalidType,
            },
            Option::None => r matches Err(e) && e is InvalidType,
        },
{
    sleep_span(argument, "seconds", "Invalid seconds")
}

/// Validation for the stdlib's sleep in whole milliseconds.
pub fn sleep_millis(argument: &TaggedValue) -> (r: Result<u64, BridgeError>)
    ensures
        match attr_find_text(*argument, "millis"@) {
            Option::Some(v) => match v {
                TaggedValue::Integer(n) => {
                    if n < 0 {
                        r matches Err(e) && e is DetailedError
                    } else {
                        r == Ok::<u64, BridgeError>(n as u64)
                    }
                },
                _ => r matches Err(e) && e is InvalidType,
            },
            Option::None => r matches Err(e) && e is InvalidType,
        },
{
    sleep_span(argument, "millis", "Invalid milliseconds")
}

/// Validation for the stdlib's sleep in whole microseconds.
pub fn sleep_micros(argument: &TaggedValue) -> (r: Result<u64, BridgeError>)
    ensures
        match attr_find_text(*argument, "micros"@) {
            Option::Some(v) => match v {
                TaggedValue::Integer(n) => {
                    if n < 0 {
                        r matches Err(e) && e is DetailedError
                    } else {
                        r == Ok::<u64, BridgeError>(n as u64)
                    }
                },
                _ => r matches Err(e) && e is InvalidType,
            },
            Option::None => r matches Err(e) && e is InvalidType,
        },
{
    sleep_span(argument, "micros", "Invalid microseconds")
}

} // verus!
