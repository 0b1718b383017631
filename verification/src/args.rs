//! Which mode an invocation runs in. Exactly one of the day and month
//! arguments must be given, and the range argument — accepted on the command
//! line but acted on by nothing — must be absent; every other combination
//! resolves to no mode at all, which the caller answers with its usage text
//! and a failure status.

use vstd::prelude::*;

verus! {

/// The one mode a valid invocation selects, with the raw argument text.
#[derive(Debug)]
pub enum Mode {
    /// Process a single day, given as `YYYY-MM-DD`.
    Day(String),
    /// Process a whole month, given as `YYYY-MM`.
    Month(String),
}

/// Resolves the three optional arguments to a mode: the day argument alone
/// or the month argument alone selects its mode; both, neither, or a range
/// argument beside either selects none.
pub fn resolve_mode(day: Option<String>, month: Option<String>, range: Option<Vec<String>>) -> (r:
    Option<Mode>)
    ensures
        r is Some <==> ((day is Some && month is None && range is None) || (month is Some
            && day is None && range is None)),
        (day is Some && month is None && range is None) ==> r == Some(Mode::Day(day.unwrap())),
        (month is Some && day is None && range is None) ==> r == Some(
            Mode::Month(month.unwrap()),
        ),
{
    match (day, month, range) {
        (Some(d), None, None) => Some(Mode::Day(d)),
        (None, Some(m), None) => Some(Mode::Month(m)),
        _ => None,
    }
}

} // verus!
