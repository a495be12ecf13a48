use vstd::prelude::*;

use crate::eval::{evaluate, fault_text};
use crate::parse_std;

verus! {

/// chrono's signed span of time (`chrono::Duration`), carried through opaquely.
#[verifier::external_type_specification]
#[verifier::external_body]
pub struct ExTimeDelta(chrono::TimeDelta);

/// time's signed span of time (`time::Duration`), carried through opaquely.
#[verifier::external_type_specification]
#[verifier::external_body]
pub struct ExSignedDuration(time::SignedDuration);

/// The `chrono::TimeDelta` that `TimeDelta::from_std` makes of `n` nanoseconds.
pub uninterp spec fn chrono_delta_of(n: u64) -> chrono::TimeDelta;

/// The `time::SignedDuration` that its `TryFrom<std::time::Duration>` makes of `n`
/// nanoseconds.
pub uninterp spec fn time_delta_of(n: u64) -> time::SignedDuration;

/// Relies on `chrono::TimeDelta::from_std` (after `std::time::Duration::from_nanos`),
/// which fails only beyond `i64::MAX` milliseconds, far above any `u64` count of
/// nanoseconds; the delta depends on `n` alone.
#[verifier::external_body]
fn chrono_from_nanos(n: u64) -> (r: Option<chrono::TimeDelta>)
    ensures
        r == Some(chrono_delta_of(n)),
{
    chrono::TimeDelta::from_std(std::time::Duration::from_nanos(n)).ok()
}

/// Relies on `time::SignedDuration`'s `TryFrom<std::time::Duration>` (after
/// `std::time::Duration::from_nanos`), which fails only beyond `i64::MAX` seconds, far
/// above any `u64` count of nanoseconds; the duration depends on `n` alone.
#[verifier::external_body]
fn time_from_nanos(n: u64) -> (r: Option<time::SignedDuration>)
    ensures
        r == Some(time_delta_of(n)),
{
    time::SignedDuration::try_from(std::time::Duration::from_nanos(n)).ok()
}

/// Parses a duration expression into a `chrono::Duration`. It fails exactly where
/// [`parse_std`] fails, with the same diagnostic.
pub fn parse_chrono(input: &str) -> (r: Result<chrono::TimeDelta, String>)
    ensures
        r is Ok <==> evaluate(input@) is Ok,
        r matches Ok(c) ==> c == chrono_delta_of(evaluate(input@)->Ok_0 as u64),
        r matches Err(m) ==> m@ == fault_text(input@, evaluate(input@)->Err_0),
{
    match parse_std(input) {
        Err(m) => Err(m),
        Ok(d) => match chrono_from_nanos(d.as_nanos()) {
            Some(c) => Ok(c),
            None => Err("duration out of range".to_string()),
        },
    }
}

/// Parses a duration expression into a `time::Duration`. It fails exactly where
/// [`parse_std`] fails, with the same diagnostic.
pub fn parse_time(input: &str) -> (r: Result<time::SignedDuration, String>)
    ensures
        r is Ok <==> evaluate(input@) is Ok,
        r matches Ok(t) ==> t == time_delta_of(evaluate(input@)->Ok_0 as u64),
        r matches Err(m) ==> m@ == fault_text(input@, evaluate(input@)->Err_0),
{
    match parse_std(input) {
        Err(m) => Err(m),
        Ok(d) => match time_from_nanos(d.as_nanos()) {
            Some(t) => Ok(t),
            None => Err("duration out of range".to_string()),
        },
    }
}

} // verus!
