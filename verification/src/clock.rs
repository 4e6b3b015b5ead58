//! Trusted wall-clock readings. Nothing is promised of the values: callers
//! state what holds for every reading.

use vstd::prelude::*;

verus! {

/// Relies on `std::time::SystemTime::now`: seconds since the unix epoch.
#[verifier::external_body]
pub fn now_unix_seconds() -> (t: u64) {
    match std::time::SystemTime::now().duration_since(std::time::UNIX_EPOCH) {
        Ok(d) => d.as_secs(),
        Err(_) => 0,
    }
}

/// Relies on `std::time::SystemTime::now`: milliseconds since the unix epoch.
#[verifier::external_body]
pub fn now_unix_millis() -> (t: u64) {
    match std::time::SystemTime::now().duration_since(std::time::UNIX_EPOCH) {
        Ok(d) => u64::try_from(d.as_millis()).unwrap_or(u64::MAX),
        Err(_) => 0,
    }
}

/// Relies on `chrono::Local::now` and its formatter: the local wall time
/// as `HH:MM:SS`.
#[verifier::external_body]
pub fn now_clock_text() -> (t: String) {
    chrono::Local::now().format("%H:%M:%S").to_string()
}

} // verus!
