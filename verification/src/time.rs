//! Compact relative times such as `2d ago`.
use std::time::{Duration, SystemTime};
use vstd::prelude::*;
use crate::numbers::{decimal, decimal_of};
use crate::text::{chars_of, push_str, string_of};

verus! {

/// `n` followed by a unit and ` ago`, e.g. `2d ago`.
pub open spec fn ago(n: nat, unit: Seq<char>) -> Seq<char> {
    decimal(n) + unit + " ago"@
}

/// The text for something `secs` seconds old: `now` under a minute, then
/// whole minutes, hours, days, weeks, 30-day months and 365-day years.
pub open spec fn relative_text(secs: nat) -> Seq<char> {
    if secs < 60 {
        "now"@
    } else if secs < 3_600 {
        ago(secs / 60, "m"@)
    } else if secs < 86_400 {
        ago(secs / 3_600, "h"@)
    } else if secs < 604_800 {
        ago(secs / 86_400, "d"@)
    } else if secs < 2_592_000 {
        ago(secs / 604_800, "w"@)
    } else if secs < 31_536_000 {
        ago(secs / 2_592_000, "mo"@)
    } else {
        ago(secs / 31_536_000, "y"@)
    }
}

/// Seconds from `t` to `now`; a time in the future counts as zero.
pub open spec fn elapsed(now: u64, t: u64) -> nat {
    if now >= t {
        (now - t) as nat
    } else {
        0
    }
}

fn ago_of(n: u64, unit: &str) -> (res: String)
    ensures
        res@ == ago(n as nat, unit@),
{
    let mut v = decimal_of(n);
    push_str(&mut v, unit);
    push_str(&mut v, " ago");
    string_of(&v)
}

/// The relative text for a commit at `t` seen at `now` (both in seconds
/// since the Unix epoch).
pub fn relative_at(now: u64, t: u64) -> (res: String)
    ensures
        res@ == relative_text(elapsed(now, t)),
{
    let secs = if now >= t {
        now - t
    } else {
        0
    };
    if secs < 60 {
        string_of(&chars_of("now"))
    } else if secs < 3_600 {
        ago_of(secs / 60, "m")
    } else if secs < 86_400 {
        ago_of(secs / 3_600, "h")
    } else if secs < 604_800 {
        ago_of(secs / 86_400, "d")
    } else if secs < 2_592_000 {
        ago_of(secs / 604_800, "w")
    } else if secs < 31_536_000 {
        ago_of(secs / 2_592_000, "mo")
    } else {
        ago_of(secs / 31_536_000, "y")
    }
}

#[verifier::external_type_specification]
#[verifier::external_body]
pub struct ExSystemTime(std::time::SystemTime);

/// `SystemTime::now`: the clock's current reading. It depends on the clock,
/// so nothing is stated of it.
#[verifier::external_body]
fn clock_now() -> SystemTime {
    SystemTime::now()
}

/// `SystemTime::duration_since(UNIX_EPOCH)`: how long after the epoch `t`
/// is, `None` for a reading before the epoch. Nothing is stated of which
/// duration, as nothing is known of the reading.
#[verifier::external_body]
fn since_epoch(t: &SystemTime) -> Option<Duration> {
    match t.duration_since(std::time::UNIX_EPOCH) {
        Ok(d) => Some(d),
        Err(_) => None,
    }
}

/// `Duration::as_secs`: the whole seconds of `d`. Durations here come from
/// the clock alone, so nothing is stated of the number.
#[verifier::external_body]
fn whole_seconds(d: &Duration) -> u64 {
    d.as_secs()
}

/// The current time in whole seconds since the Unix epoch (0 for a clock
/// set before the epoch).
fn unix_now() -> u64 {
    match since_epoch(&clock_now()) {
        Some(d) => whole_seconds(&d),
        None => 0,
    }
}

/// Compact relative time of `t` (seconds since the Unix epoch) as of the
/// current clock, e.g. `2d ago`, `3w ago`, `now`.
pub fn relative(t: u64) -> (res: String)
    ensures
        exists|now: u64| res@ == relative_text(elapsed(now, t)),
{
    let now = unix_now();
    relative_at(now, t)
}

} // verus!
