//! Post-filters applied to the human-facing output: dropping
//! short-duration outages that do not abut a neighbour, and dropping
//! outages of areas whose schedule has expired.

use vstd::prelude::*;
use vstd::string::StrSliceExecFns;

use crate::dates::DateTime;
use crate::dates::instant_seconds;
use crate::dates::instant_seconds_exec;
use crate::outage::OutageView;
use crate::outage::PowerOutage;
use crate::text::str_eq;

verus! {

/// An outage in a time-sorted per-area list is kept when it is longer
/// than the threshold, or when it is contiguous (gap at most `gap`
/// seconds) with the previous or next outage: contiguous short outages
/// are one real outage split by recurrence boundaries.
pub open spec fn keep_outage(s: Seq<OutageView>, i: int, min_dur: int, gap: int) -> bool {
    ||| instant_seconds(s[i].finsh) - instant_seconds(s[i].start) > min_dur
    ||| (i > 0 && instant_seconds(s[i].start) - instant_seconds(s[i - 1].finsh) <= gap)
    ||| (i + 1 < s.len() && instant_seconds(s[i + 1].start) - instant_seconds(s[i].finsh) <= gap)
}

/// The kept outages among the first `n`.
pub open spec fn filter_short_upto(s: Seq<OutageView>, min_dur: int, gap: int, n: int) -> Seq<
    OutageView,
>
    decreases n,
{
    if n <= 0 {
        Seq::empty()
    } else if keep_outage(s, n - 1, min_dur, gap) {
        filter_short_upto(s, min_dur, gap, n - 1).push(s[n - 1])
    } else {
        filter_short_upto(s, min_dur, gap, n - 1)
    }
}

/// The short-duration post-filter over a whole list.
pub open spec fn filter_short_spec(s: Seq<OutageView>, min_dur: int, gap: int) -> Seq<OutageView> {
    filter_short_upto(s, min_dur, gap, s.len() as int)
}

/// Drops outages not longer than `min_duration_secs` unless they are
/// within `max_gap_secs` of a neighbour in the given time-sorted list.
pub fn filter_short_outages(
    outages: &Vec<PowerOutage>,
    min_duration_secs: u32,
    max_gap_secs: u32,
) -> (r: Vec<PowerOutage>)
    requires
        forall|i: int| 0 <= i < outages@.len() ==> (#[trigger] outages@[i]).wf(),
    ensures
        r@.map_values(|p: PowerOutage| p@) == filter_short_spec(
            outages@.map_values(|p: PowerOutage| p@),
            min_duration_secs as int,
            max_gap_secs as int,
        ),
        forall|i: int| 0 <= i < r@.len() ==> (#[trigger] r@[i]).wf(),
{
    let ghost views = outages@.map_values(|p: PowerOutage| p@);
    let mut out: Vec<PowerOutage> = Vec::new();
    let mut i: usize = 0;
    while i < outages.len()
        invariant
            forall|k: int| 0 <= k < outages@.len() ==> (#[trigger] outages@[k]).wf(),
            views == outages@.map_values(|p: PowerOutage| p@),
            0 <= i <= outages@.len(),
            out@.map_values(|p: PowerOutage| p@) == filter_short_upto(
                views,
                min_duration_secs as int,
                max_gap_secs as int,
                i as int,
            ),
            forall|k: int| 0 <= k < out@.len() ==> (#[trigger] out@[k]).wf(),
        decreases outages@.len() - i,
    {
        let ghost before = out@.map_values(|p: PowerOutage| p@);
        let dur_ok = instant_seconds_exec(&outages[i].finsh) - instant_seconds_exec(
            &outages[i].start,
        ) > min_duration_secs as i64;
        let prev_collides = i > 0 && instant_seconds_exec(&outages[i].start)
            - instant_seconds_exec(&outages[i - 1].finsh) <= max_gap_secs as i64;
        let next_collides = i + 1 < outages.len() && instant_seconds_exec(&outages[i + 1].start)
            - instant_seconds_exec(&outages[i].finsh) <= max_gap_secs as i64;
        if dur_ok || prev_collides || next_collides {
            out.push(outages[i].clone());
            proof {
                assert(out@.map_values(|p: PowerOutage| p@) =~= before.push(views[i as int]));
            }
        }
        i += 1;
    }
    out
}

/// Whether one of the names is this string.
pub open spec fn contains_name(names: Seq<String>, s: Seq<char>) -> bool {
    exists|j: int| 0 <= j < names.len() && names[j]@ == s
}

/// Decides `contains_name`.
pub fn contains_str(names: &Vec<String>, s: &str) -> (r: bool)
    ensures
        r == contains_name(names@, s@),
{
    let mut j: usize = 0;
    while j < names.len()
        invariant
            0 <= j <= names@.len(),
            forall|t: int| 0 <= t < j ==> names@[t]@ != s@,
        decreases names@.len() - j,
    {
        if str_eq(names[j].as_str(), s) {
            return true;
        }
        j += 1;
    }
    false
}

/// An outage is dropped when its area has expired and it starts at or
/// after the cutover instant.
pub open spec fn keep_unexpired(
    v: OutageView,
    expired: Seq<String>,
    expired_at: DateTime,
) -> bool {
    !(contains_name(expired, v.area_name) && instant_seconds(v.start) >= instant_seconds(
        expired_at,
    ))
}

/// The expiry post-filter over a whole list.
pub open spec fn filter_expired_spec(
    s: Seq<OutageView>,
    expired: Seq<String>,
    expired_at: DateTime,
) -> Seq<OutageView>
    decreases s.len(),
{
    if s.len() == 0 {
        Seq::empty()
    } else {
        let rest = filter_expired_spec(s.drop_last(), expired, expired_at);
        if keep_unexpired(s.last(), expired, expired_at) {
            rest.push(s.last())
        } else {
            rest
        }
    }
}

/// Drops the outages of expired areas that start at or after the
/// cutover instant.
pub fn filter_expired_outages(
    outages: &Vec<PowerOutage>,
    expired: &Vec<String>,
    expired_at: &DateTime,
) -> (r: Vec<PowerOutage>)
    requires
        forall|i: int| 0 <= i < outages@.len() ==> (#[trigger] outages@[i]).wf(),
        expired_at.in_range(),
    ensures
        r@.map_values(|p: PowerOutage| p@) == filter_expired_spec(
            outages@.map_values(|p: PowerOutage| p@),
            expired@,
            *expired_at,
        ),
        forall|i: int| 0 <= i < r@.len() ==> (#[trigger] r@[i]).wf(),
{
    let ghost views = outages@.map_values(|p: PowerOutage| p@);
    let mut out: Vec<PowerOutage> = Vec::new();
    let mut i: usize = 0;
    while i < outages.len()
        invariant
            forall|k: int| 0 <= k < outages@.len() ==> (#[trigger] outages@[k]).wf(),
            expired_at.in_range(),
            views == outages@.map_values(|p: PowerOutage| p@),
            0 <= i <= outages@.len(),
            out@.map_values(|p: PowerOutage| p@) == filter_expired_spec(
                views.subrange(0, i as int),
                expired@,
                *expired_at,
            ),
            forall|k: int| 0 <= k < out@.len() ==> (#[trigger] out@[k]).wf(),
        decreases outages@.len() - i,
    {
        let ghost before = out@.map_values(|p: PowerOutage| p@);
        let is_expired_area = contains_str(expired, outages[i].area_name.as_str());
        let starts_after = instant_seconds_exec(&outages[i].start) >= instant_seconds_exec(
            expired_at,
        );
        if !(is_expired_area && starts_after) {
            out.push(outages[i].clone());
        }
        proof {
            assert(views.subrange(0, i as int + 1).drop_last() =~= views.subrange(0, i as int));
            assert(views.subrange(0, i as int + 1).last() == views[i as int]);
            if keep_unexpired(views[i as int], expired@, *expired_at) {
                assert(out@.map_values(|p: PowerOutage| p@) =~= before.push(views[i as int]));
            }
        }
        i += 1;
    }
    proof {
        assert(views.subrange(0, views.len() as int) =~= views);
    }
    out
}

} // verus!
