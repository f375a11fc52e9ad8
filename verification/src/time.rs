//! The timestamp source. Appending is parameterised over a single-method
//! clock capability so that tests can substitute fixed or sequenced
//! values; the production clock renders the current local time through a
//! strftime-style pattern.

use std::fmt::Write;
use vstd::prelude::*;

verus! {

/// A source of pre-formatted timestamps. No promise is made about the
/// returned text: it comes from the wall clock (or from a test double),
/// so callers state their guarantees for every possible value.
pub trait Clock {
    fn now_formatted(&self, pattern: &str) -> String;
}

/// The production clock: local wall-clock time rendered through the
/// given pattern.
pub struct SystemClock;

/// Relies on `chrono::Local::now` and `chrono::DateTime::format`: renders
/// the current local time through a strftime-style pattern. The rendered
/// text is written out through `core::fmt`; a pattern that chrono cannot
/// render makes the write fail, which this wrapper reports as `None`
/// rather than panicking. Nothing is promised of the result: it depends
/// on the wall clock and the time zone.
#[verifier::external_body]
fn format_local_now(pattern: &str) -> (r: Option<String>) {
    let mut out = String::new();
    match write!(out, "{}", chrono::Local::now().format(pattern)) {
        Ok(()) => Some(out),
        Err(_) => None,
    }
}

impl Clock for SystemClock {
    fn now_formatted(&self, pattern: &str) -> String {
        match format_local_now(pattern) {
            Some(s) => s,
            None => String::new(),
        }
    }
}

/// A test clock that answers every request with one fixed text.
pub struct FixedClock {
    pub formatted: String,
}

impl Clock for FixedClock {
    fn now_formatted(&self, _pattern: &str) -> String {
        self.formatted.clone()
    }
}

} // verus!
