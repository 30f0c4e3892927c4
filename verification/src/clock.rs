use std::time::{Duration, SystemTime, SystemTimeError, UNIX_EPOCH};
use vstd::prelude::*;

use crate::text::{decimal, decimal_string, push_str, string_of};

verus! {

/// The system clock's `std::time::SystemTime`, carried through as it is.
#[verifier::external_type_specification]
#[verifier::external_body]
pub struct ExSystemTime(SystemTime);

/// The `std::time::SystemTimeError` of a clock reading before the epoch.
#[verifier::external_type_specification]
#[verifier::external_body]
pub struct ExSystemTimeError(SystemTimeError);

/// `SystemTime::now`: the current time of the system clock. Nothing is claimed
/// of it.
#[verifier::external_body]
fn system_now() -> SystemTime {
    SystemTime::now()
}

/// `SystemTime::duration_since(UNIX_EPOCH)`: the time elapsed since the Unix
/// epoch, or an error for a time before it. Nothing is claimed of it.
#[verifier::external_body]
fn since_unix_epoch(t: &SystemTime) -> Result<Duration, SystemTimeError> {
    t.duration_since(UNIX_EPOCH)
}

/// `Duration::as_secs`: the whole seconds of a duration. Nothing is claimed of
/// it, as a duration is opaque here.
#[verifier::external_body]
fn whole_secs(d: &Duration) -> u64 {
    d.as_secs()
}

/// `Duration::as_nanos`: the whole nanoseconds of a duration. Nothing is claimed
/// of it, as a duration is opaque here.
#[verifier::external_body]
fn whole_nanos(d: &Duration) -> u128 {
    d.as_nanos()
}

/// The whole seconds `since` the Unix epoch, or 0 where the clock was read
/// before it.
pub fn secs_or_zero(since: Result<u64, ()>) -> (r: u64)
    ensures
        r == match since {
            Ok(s) => s,
            Err(_) => 0,
        },
{
    match since {
        Ok(s) => s,
        Err(_) => 0,
    }
}

/// The whole nanoseconds `since` the Unix epoch, or 0 where the clock was read
/// before it.
pub fn nanos_or_zero(since: Result<u128, ()>) -> (r: u128)
    ensures
        r == match since {
            Ok(n) => n,
            Err(_) => 0,
        },
{
    match since {
        Ok(n) => n,
        Err(_) => 0,
    }
}

/// The whole seconds since the Unix epoch, or 0 for a clock set before it
/// (see `secs_or_zero`). The reading itself is the machine's clock, of which
/// nothing is claimed.
pub fn unix_timestamp() -> u64 {
    let now = system_now();
    let since = match since_unix_epoch(&now) {
        Ok(d) => Ok(whole_secs(&d)),
        Err(_) => Err(()),
    };
    secs_or_zero(since)
}

/// The whole nanoseconds since the Unix epoch, or 0 for a clock set before it
/// (see `nanos_or_zero`). The reading itself is the machine's clock, of which
/// nothing is claimed.
pub fn unix_timestamp_nanos() -> u128 {
    let now = system_now();
    let since = match since_unix_epoch(&now) {
        Ok(d) => Ok(whole_nanos(&d)),
        Err(_) => Err(()),
    };
    nanos_or_zero(since)
}

/// The backup path for `config_path` made at the time `timestamp`: the path
/// with `.yggdre-backup.` and the timestamp in decimal after it.
pub open spec fn backup_text(config_path: Seq<char>, timestamp: u64) -> Seq<char> {
    config_path + ".yggdre-backup."@ + decimal(timestamp as nat)
}

/// The backup path for `config_path` made at the time `timestamp`.
pub fn backup_path_at(config_path: &str, timestamp: u64) -> (r: String)
    ensures
        r@ == backup_text(config_path@, timestamp),
{
    let d = decimal_string(timestamp);
    let mut out: Vec<char> = Vec::new();
    push_str(&mut out, config_path);
    push_str(&mut out, ".yggdre-backup.");
    push_str(&mut out, d.as_str());
    string_of(&out)
}

/// The backup path for `config_path` made now.
pub fn backup_path(config_path: &str) -> (r: String)
    ensures
        exists|t: u64| r@ == backup_text(config_path@, t),
{
    let t = unix_timestamp();
    backup_path_at(config_path, t)
}

} // verus!
