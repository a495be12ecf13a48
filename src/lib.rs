//! Parses human-written duration expressions such as `"1h 30m"`, `"3m+31"` or
//! `"1m*10ms"` into an exact, overflow-checked nanosecond duration.
//!
//! An expression is a leading term (digits, then an optional unit; seconds without one)
//! and an optional chain of further terms joined by `+` or `*`. A chain uses one operator
//! throughout; a missing operator between terms is a `+`. Spaces may stand anywhere
//! between tokens.
pub mod calc;
pub mod convert;
pub mod decimal;
pub mod duration;
pub mod eval;
pub mod ext;
pub mod laws;
pub mod parser;
pub mod render;
pub mod round_trip;
pub mod text;
pub mod unit;

pub use calc::{CondUnit, DError};
pub use convert::{parse_chrono, parse_time};
pub use duration::Duration;
pub use eval::{render_error, Failure};
pub use ext::{format_inner, HumanFormat};
pub use parser::{cond_time, cond_unit1, opt_unit_abbr, parse_expr_time, unit_abbr1, SyntaxError};
pub use unit::TimeUnit;

use vstd::prelude::*;

use eval::{describe, evaluate, evaluate_chars, fault_text};

verus! {

/// Parses a duration expression. The error is a diagnostic that shows where and why the
/// input failed.
pub fn parse(input: &str) -> (r: Result<Duration, String>)
    ensures
        match evaluate(input@) {
            Ok(n) => r matches Ok(d) && d@ == n,
            Err(g) => r matches Err(m) && m@ == fault_text(input@, g),
        },
{
    let s = text::chars_of(input);
    match evaluate_chars(&s) {
        Ok(n) => Ok(Duration::from_nanos(n)),
        Err(f) => {
            let ghost g = evaluate(s@)->Err_0;
            Err(describe(input, &s, &f, Ghost(g)))
        },
    }
}

/// Parses a duration expression into a [`Duration`]; the same as [`parse`].
pub fn parse_std(input: &str) -> (r: Result<Duration, String>)
    ensures
        match evaluate(input@) {
            Ok(n) => r matches Ok(d) && d@ == n,
            Err(g) => r matches Err(m) && m@ == fault_text(input@, g),
        },
{
    parse(input)
}

} // verus!
