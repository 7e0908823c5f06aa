//! Error values for rejected configuration records.

use vstd::prelude::*;

verus! {

/// Why a raw configuration record was rejected.  Any of these aborts the
/// run before generation starts.
#[derive(Clone, Copy, Debug, PartialEq, Eq, Structural)]
pub enum ConfigError {
    /// A `HH:MM` or `HH:MM:SS` start time did not parse.
    BadStartTime,
    /// A `HH:MM` or `HH:MM:SS` finish time did not parse.
    BadFinshTime,
    /// A periodic rule's cycle anchor date did not parse.
    BadCycleDate,
    /// A periodic rule's day of cycle lies outside `1..=period`.
    BadDayOfCycle,
    /// A weekly rule's day of week lies outside `1..=7`.
    BadDayOfWeek,
    /// A monthly rule's date of month lies outside `1..=31`.
    BadDateOfMonth,
    /// A national change's start timestamp did not parse or lies outside
    /// the supported year range.
    BadStart,
    /// A national change's finish timestamp did not parse or lies outside
    /// the supported year range.
    BadFinsh,
    /// A national change's resolved include pattern is not a valid
    /// regular expression.
    BadIncludePattern,
    /// A national change's resolved exclude pattern is not a valid
    /// regular expression.
    BadExcludePattern,
}

} // verus!
