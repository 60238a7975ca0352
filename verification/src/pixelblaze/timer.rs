//! A clock for hosts with an operating system.

use vstd::prelude::*;

verus! {

#[verifier::external_type_specification]
#[verifier::external_body]
pub struct ExInstant(std::time::Instant);

/// `Instant::now` of the standard library: the present moment. Nothing is
/// promised of it.
#[verifier::external_body]
fn instant_now() -> (r: std::time::Instant) {
    std::time::Instant::now()
}

/// `Instant::elapsed` of the standard library: the time since the moment.
/// Nothing is promised of it.
#[verifier::external_body]
fn instant_elapsed(start: &std::time::Instant) -> (r: std::time::Duration) {
    start.elapsed()
}

/// `Duration::as_millis` of the standard library: the whole milliseconds of
/// the duration. Nothing is promised of it.
#[verifier::external_body]
fn duration_millis(d: &std::time::Duration) -> (r: u128) {
    d.as_millis()
}

/// A clock that counts from the moment it was made.
#[derive(Debug)]
pub struct StdTimer {
    pub start: std::time::Instant,
}

impl StdTimer {
    /// A clock that starts now.
    pub fn new() -> (r: Self) {
        StdTimer { start: instant_now() }
    }

    /// The milliseconds since the clock was made, modulo 2^32.
    pub fn time_millis(&self) -> (r: u32) {
        let d = instant_elapsed(&self.start);
        let ms = duration_millis(&d);
        wrap_millis(ms)
    }
}

impl Default for StdTimer {
    fn default() -> (r: Self) {
        StdTimer::new()
    }
}

/// A count of milliseconds as a clock of 32 bits shows it: modulo 2^32.
pub fn wrap_millis(ms: u128) -> (r: u32)
    ensures
        r == ms % 0x1_0000_0000,
{
    (ms % 0x1_0000_0000) as u32
}

} // verus!
