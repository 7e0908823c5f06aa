//! The interval generator: every concrete (start, finish) instant pair at
//! which a recurring local window actually falls inside a national
//! window.
//!
//! Candidate days run from one day before the national start (so a
//! midnight-crossing window starting the previous evening is not missed)
//! through the national finish day.  Each candidate day on which the rule
//! matches contributes its local window, clipped to the national window;
//! degenerate and boundary-touching results are discarded.

use vstd::prelude::*;

use crate::dates::Date;
use crate::dates::DateTime;
use crate::dates::TimeOfDay;
use crate::dates::day_number;
use crate::dates::day_number_exec;
use crate::dates::dt_max;
use crate::dates::dt_max_exec;
use crate::dates::dt_min;
use crate::dates::dt_min_exec;
use crate::dates::instant_seconds;
use crate::dates::instant_seconds_exec;
use crate::dates::lemma_day_number_bounds;
use crate::dates::lemma_day_number_prev;
use crate::dates::lemma_daynum_injective;
use crate::dates::next_day;
use crate::dates::next_day_spec;
use crate::dates::prev_day;
use crate::dates::prev_day_spec;
use crate::dates::seconds_of_day;
use crate::dates::seconds_of_day_exec;
use crate::schedule::Recurrence;
use crate::schedule::spec_matches;

verus! {

/// The local window's start instant on candidate day `d`.
pub open spec fn local_start(d: Date, start_t: TimeOfDay) -> DateTime {
    DateTime { date: d, time: start_t }
}

/// The local window's finish instant on candidate day `d`: on the next
/// calendar day when the window crosses midnight.
pub open spec fn local_finsh(d: Date, start_t: TimeOfDay, finsh_t: TimeOfDay) -> DateTime {
    if seconds_of_day(finsh_t) < seconds_of_day(start_t) {
        DateTime { date: next_day_spec(d), time: finsh_t }
    } else {
        DateTime { date: d, time: finsh_t }
    }
}

/// What candidate day `d` contributes: nothing unless the rule matches
/// the day; otherwise the local window clipped to the national window,
/// kept only when the clipped pair is properly inside it.
pub open spec fn window_item(
    nat_start: DateTime,
    nat_finsh: DateTime,
    dor: u8,
    rec: Recurrence,
    start_t: TimeOfDay,
    finsh_t: TimeOfDay,
    d: Date,
) -> Seq<(DateTime, DateTime)> {
    if spec_matches(rec, dor, d) {
        let cs = dt_max(nat_start, local_start(d, start_t));
        let cf = dt_min(nat_finsh, local_finsh(d, start_t, finsh_t));
        if instant_seconds(cf) <= instant_seconds(nat_finsh) && instant_seconds(cs)
            < instant_seconds(nat_finsh) && instant_seconds(cs) >= instant_seconds(nat_start)
            && instant_seconds(cf) > instant_seconds(nat_start) {
            seq![(cs, cf)]
        } else {
            Seq::empty()
        }
    } else {
        Seq::empty()
    }
}

/// The contributions of `n` consecutive candidate days starting at `d`.
pub open spec fn gen_from(
    nat_start: DateTime,
    nat_finsh: DateTime,
    dor: u8,
    rec: Recurrence,
    start_t: TimeOfDay,
    finsh_t: TimeOfDay,
    d: Date,
    n: nat,
) -> Seq<(DateTime, DateTime)>
    decreases n,
{
    if n == 0 {
        Seq::empty()
    } else {
        window_item(nat_start, nat_finsh, dor, rec, start_t, finsh_t, d) + gen_from(
            nat_start,
            nat_finsh,
            dor,
            rec,
            start_t,
            finsh_t,
            next_day_spec(d),
            (n - 1) as nat,
        )
    }
}

/// How many candidate days a window has: from the day before the national
/// start through the national finish day.
pub open spec fn candidate_days(nat_start: DateTime, nat_finsh: DateTime) -> nat {
    let first = prev_day_spec(nat_start.date);
    if day_number(nat_finsh.date) >= day_number(first) {
        (day_number(nat_finsh.date) - day_number(first) + 1) as nat
    } else {
        0
    }
}

/// Everything the generator returns for one local rule and one national
/// window.
pub open spec fn gen_datetimes_spec(
    nat_start: DateTime,
    nat_finsh: DateTime,
    dor: u8,
    rec: Recurrence,
    start_t: TimeOfDay,
    finsh_t: TimeOfDay,
) -> Seq<(DateTime, DateTime)> {
    gen_from(
        nat_start,
        nat_finsh,
        dor,
        rec,
        start_t,
        finsh_t,
        prev_day_spec(nat_start.date),
        candidate_days(nat_start, nat_finsh),
    )
}

/// Every generated pair lies properly inside the national window, with
/// in-range instants.
pub proof fn lemma_gen_from_bounds(
    nat_start: DateTime,
    nat_finsh: DateTime,
    dor: u8,
    rec: Recurrence,
    start_t: TimeOfDay,
    finsh_t: TimeOfDay,
    d: Date,
    n: nat,
)
    requires
        nat_start.in_range(),
        nat_finsh.in_range(),
        start_t.wf(),
        finsh_t.wf(),
        d.in_range(),
        n > 0 ==> day_number(d) + n - 1 == day_number(nat_finsh.date),
        nat_finsh.date.year <= 9999,
    ensures
        forall|x: int|
            #![trigger gen_from(nat_start, nat_finsh, dor, rec, start_t, finsh_t, d, n)[x]]
            0 <= x < gen_from(nat_start, nat_finsh, dor, rec, start_t, finsh_t, d, n).len() ==> {
                let item = gen_from(nat_start, nat_finsh, dor, rec, start_t, finsh_t, d, n)[x];
                &&& item.0.in_range()
                &&& item.1.in_range()
                &&& instant_seconds(item.0) >= instant_seconds(nat_start)
                &&& instant_seconds(item.1) <= instant_seconds(nat_finsh)
                &&& instant_seconds(item.0) < instant_seconds(nat_finsh)
                &&& instant_seconds(item.1) > instant_seconds(nat_start)
            },
    decreases n,
{
    if n > 0 {
        lemma_day_number_bounds(d);
        lemma_day_number_bounds(nat_finsh.date);
        crate::dates::lemma_day_number_next(d);
        lemma_gen_from_bounds(
            nat_start,
            nat_finsh,
            dor,
            rec,
            start_t,
            finsh_t,
            next_day_spec(d),
            (n - 1) as nat,
        );
        let s = gen_from(nat_start, nat_finsh, dor, rec, start_t, finsh_t, d, n);
        let head = window_item(nat_start, nat_finsh, dor, rec, start_t, finsh_t, d);
        let tail = gen_from(
            nat_start,
            nat_finsh,
            dor,
            rec,
            start_t,
            finsh_t,
            next_day_spec(d),
            (n - 1) as nat,
        );
        assert forall|x: int| 0 <= x < s.len() implies {
            let item = #[trigger] s[x];
            &&& item.0.in_range()
            &&& item.1.in_range()
            &&& instant_seconds(item.0) >= instant_seconds(nat_start)
            &&& instant_seconds(item.1) <= instant_seconds(nat_finsh)
            &&& instant_seconds(item.0) < instant_seconds(nat_finsh)
            &&& instant_seconds(item.1) > instant_seconds(nat_start)
        } by {
            if x < head.len() {
                assert(s[x] == head[0]);
            } else {
                assert(s[x] == tail[x - head.len()]);
            }
        };
    }
}

/// The generated pairs come out in ascending start order: each candidate
/// day's clipped start is no earlier than the previous day's.
pub proof fn lemma_gen_from_sorted(
    nat_start: DateTime,
    nat_finsh: DateTime,
    dor: u8,
    rec: Recurrence,
    start_t: TimeOfDay,
    finsh_t: TimeOfDay,
    d: Date,
    n: nat,
)
    requires
        nat_start.in_range(),
        nat_finsh.in_range(),
        start_t.wf(),
        d.in_range(),
        n > 0 ==> day_number(d) + n - 1 == day_number(nat_finsh.date),
        nat_finsh.date.year <= 9999,
    ensures
        forall|x: int|
            #![trigger gen_from(nat_start, nat_finsh, dor, rec, start_t, finsh_t, d, n)[x]]
            0 <= x < gen_from(nat_start, nat_finsh, dor, rec, start_t, finsh_t, d, n).len()
                ==> instant_seconds(
                gen_from(nat_start, nat_finsh, dor, rec, start_t, finsh_t, d, n)[x].0,
            ) >= instant_seconds(dt_max(nat_start, local_start(d, start_t))),
        forall|x: int, y: int|
            #![trigger gen_from(nat_start, nat_finsh, dor, rec, start_t, finsh_t, d, n)[x], gen_from(nat_start, nat_finsh, dor, rec, start_t, finsh_t, d, n)[y]]
            0 <= x <= y < gen_from(nat_start, nat_finsh, dor, rec, start_t, finsh_t, d, n).len()
                ==> instant_seconds(
                gen_from(nat_start, nat_finsh, dor, rec, start_t, finsh_t, d, n)[x].0,
            ) <= instant_seconds(
                gen_from(nat_start, nat_finsh, dor, rec, start_t, finsh_t, d, n)[y].0,
            ),
    decreases n,
{
    if n > 0 {
        lemma_day_number_bounds(d);
        lemma_day_number_bounds(nat_finsh.date);
        crate::dates::lemma_day_number_next(d);
        lemma_gen_from_sorted(
            nat_start,
            nat_finsh,
            dor,
            rec,
            start_t,
            finsh_t,
            next_day_spec(d),
            (n - 1) as nat,
        );
        let s = gen_from(nat_start, nat_finsh, dor, rec, start_t, finsh_t, d, n);
        let head = window_item(nat_start, nat_finsh, dor, rec, start_t, finsh_t, d);
        let tail = gen_from(
            nat_start,
            nat_finsh,
            dor,
            rec,
            start_t,
            finsh_t,
            next_day_spec(d),
            (n - 1) as nat,
        );
        let floor = instant_seconds(dt_max(nat_start, local_start(d, start_t)));
        assert forall|x: int| 0 <= x < s.len() implies instant_seconds(#[trigger] s[x].0)
            >= floor by {
            if x < head.len() {
                assert(s[x] == head[0]);
            } else {
                assert(s[x] == tail[x - head.len()]);
            }
        };
        assert forall|x: int, y: int| 0 <= x <= y < s.len() implies instant_seconds(
            #[trigger] s[x].0,
        ) <= instant_seconds(#[trigger] s[y].0) by {
            if x < head.len() {
                assert(s[x] == head[0]);
            } else {
                assert(s[x] == tail[x - head.len()]);
            }
            if y < head.len() {
                assert(s[y] == head[0]);
            } else {
                assert(s[y] == tail[y - head.len()]);
            }
        };
    }
}

/// Every generated pair starts either at the national window's own start
/// instant or at the local start time on a day the rule matches.
pub proof fn lemma_gen_from_starts_matched(
    nat_start: DateTime,
    nat_finsh: DateTime,
    dor: u8,
    rec: Recurrence,
    start_t: TimeOfDay,
    finsh_t: TimeOfDay,
    d: Date,
    n: nat,
)
    ensures
        forall|x: int|
            #![trigger gen_from(nat_start, nat_finsh, dor, rec, start_t, finsh_t, d, n)[x]]
            0 <= x < gen_from(nat_start, nat_finsh, dor, rec, start_t, finsh_t, d, n).len() ==> {
                let item = gen_from(nat_start, nat_finsh, dor, rec, start_t, finsh_t, d, n)[x];
                item.0 == nat_start || (item.0.time == start_t && spec_matches(
                    rec,
                    dor,
                    item.0.date,
                ))
            },
    decreases n,
{
    if n > 0 {
        lemma_gen_from_starts_matched(
            nat_start,
            nat_finsh,
            dor,
            rec,
            start_t,
            finsh_t,
            next_day_spec(d),
            (n - 1) as nat,
        );
        let s = gen_from(nat_start, nat_finsh, dor, rec, start_t, finsh_t, d, n);
        let head = window_item(nat_start, nat_finsh, dor, rec, start_t, finsh_t, d);
        let tail = gen_from(
            nat_start,
            nat_finsh,
            dor,
            rec,
            start_t,
            finsh_t,
            next_day_spec(d),
            (n - 1) as nat,
        );
        assert forall|x: int| 0 <= x < s.len() implies {
            let item = #[trigger] s[x];
            item.0 == nat_start || (item.0.time == start_t && spec_matches(rec, dor, item.0.date))
        } by {
            if x < head.len() {
                assert(s[x] == head[0]);
            } else {
                assert(s[x] == tail[x - head.len()]);
            }
        };
    }
}

/// For a monthly rule on a day later than a month has, no generated
/// interval starts inside that month: the recurrence matcher rejects
/// every day of it, and the generator yields nothing for it, without
/// error.  In particular a `Monthly` rule with day above 28 never yields
/// a start inside February of a non-leap year.
pub proof fn lemma_monthly_skips_short_months_generated(
    nat_start: DateTime,
    nat_finsh: DateTime,
    dor: u8,
    start_t: TimeOfDay,
    finsh_t: TimeOfDay,
)
    ensures
        forall|x: int|
            #![trigger gen_datetimes_spec(nat_start, nat_finsh, dor, Recurrence::Monthly, start_t, finsh_t)[x]]
            0 <= x < gen_datetimes_spec(
                nat_start,
                nat_finsh,
                dor,
                Recurrence::Monthly,
                start_t,
                finsh_t,
            ).len() ==> {
                let item = gen_datetimes_spec(
                    nat_start,
                    nat_finsh,
                    dor,
                    Recurrence::Monthly,
                    start_t,
                    finsh_t,
                )[x];
                item.0 == nat_start || (item.0.time == start_t && item.0.date.day == dor)
            },
{
    lemma_gen_from_starts_matched(
        nat_start,
        nat_finsh,
        dor,
        Recurrence::Monthly,
        start_t,
        finsh_t,
        prev_day_spec(nat_start.date),
        candidate_days(nat_start, nat_finsh),
    );
}

/// A matched candidate day whose local window already lies properly
/// inside the national window contributes that window unclipped; with a
/// midnight-crossing rule the finish falls on the calendar day after the
/// start.
pub proof fn lemma_contained_window_is_generated(
    nat_start: DateTime,
    nat_finsh: DateTime,
    dor: u8,
    rec: Recurrence,
    start_t: TimeOfDay,
    finsh_t: TimeOfDay,
    d: Date,
)
    requires
        nat_start.valid(),
        nat_finsh.valid(),
        start_t.wf(),
        finsh_t.wf(),
        d.in_range(),
        day_number(prev_day_spec(nat_start.date)) <= day_number(d) <= day_number(nat_finsh.date),
        spec_matches(rec, dor, d),
        instant_seconds(nat_start) <= instant_seconds(local_start(d, start_t)),
        instant_seconds(local_finsh(d, start_t, finsh_t)) <= instant_seconds(nat_finsh),
        instant_seconds(local_start(d, start_t)) < instant_seconds(nat_finsh),
        instant_seconds(local_finsh(d, start_t, finsh_t)) > instant_seconds(nat_start),
    ensures
        gen_datetimes_spec(nat_start, nat_finsh, dor, rec, start_t, finsh_t).contains(
            (
                local_start(d, start_t),
                dt_min(nat_finsh, local_finsh(d, start_t, finsh_t)),
            ),
        ),
{
    lemma_day_number_prev(nat_start.date);
    lemma_gen_from_contains(
        nat_start,
        nat_finsh,
        dor,
        rec,
        start_t,
        finsh_t,
        prev_day_spec(nat_start.date),
        candidate_days(nat_start, nat_finsh),
        d,
    );
}

/// Helper for the membership law: walking the candidate chain reaches
/// every day whose day number lies inside it.
proof fn lemma_gen_from_contains(
    nat_start: DateTime,
    nat_finsh: DateTime,
    dor: u8,
    rec: Recurrence,
    start_t: TimeOfDay,
    finsh_t: TimeOfDay,
    first: Date,
    n: nat,
    d: Date,
)
    requires
        nat_start.in_range(),
        nat_finsh.in_range(),
        start_t.wf(),
        finsh_t.wf(),
        first.in_range(),
        d.in_range(),
        nat_finsh.date.year <= 9999,
        n > 0,
        day_number(first) + n - 1 == day_number(nat_finsh.date),
        day_number(first) <= day_number(d) <= day_number(nat_finsh.date),
        spec_matches(rec, dor, d),
        instant_seconds(nat_start) <= instant_seconds(local_start(d, start_t)),
        instant_seconds(local_finsh(d, start_t, finsh_t)) <= instant_seconds(nat_finsh),
        instant_seconds(local_start(d, start_t)) < instant_seconds(nat_finsh),
        instant_seconds(local_finsh(d, start_t, finsh_t)) > instant_seconds(nat_start),
    ensures
        gen_from(nat_start, nat_finsh, dor, rec, start_t, finsh_t, first, n).contains(
            (
                local_start(d, start_t),
                dt_min(nat_finsh, local_finsh(d, start_t, finsh_t)),
            ),
        ),
    decreases n,
{
    let item = (local_start(d, start_t), dt_min(nat_finsh, local_finsh(d, start_t, finsh_t)));
    let head = window_item(nat_start, nat_finsh, dor, rec, start_t, finsh_t, first);
    let tail = gen_from(
        nat_start,
        nat_finsh,
        dor,
        rec,
        start_t,
        finsh_t,
        next_day_spec(first),
        (n - 1) as nat,
    );
    if day_number(first) == day_number(d) {
        lemma_daynum_injective(first, d);
        // the local start is at or after the national start, so clipping
        // keeps it
        assert(dt_max(nat_start, local_start(d, start_t)) == local_start(d, start_t));
        assert(head == seq![item]);
        assert((head + tail)[0] == item);
    } else {
        lemma_day_number_bounds(first);
        lemma_day_number_bounds(nat_finsh.date);
        crate::dates::lemma_day_number_next(first);
        lemma_gen_from_contains(
            nat_start,
            nat_finsh,
            dor,
            rec,
            start_t,
            finsh_t,
            next_day_spec(first),
            (n - 1) as nat,
            d,
        );
        let k = choose|k: int| 0 <= k < tail.len() && tail[k] == item;
        assert((head + tail)[head.len() + k] == item);
    }
}

/// Finds all (start, finish) instant pairs in the national window during
/// which the recurring local window is in force, in candidate-day order.
#[verifier::rlimit(80)]
pub fn gen_datetimes(
    nat_start: &DateTime,
    nat_finsh: &DateTime,
    lcl_dor: u8,
    lcl_recurrence: Recurrence,
    lcl_start_t: TimeOfDay,
    lcl_finsh_t: TimeOfDay,
) -> (r: Vec<(DateTime, DateTime)>)
    requires
        nat_start.valid(),
        nat_finsh.valid(),
        lcl_start_t.wf(),
        lcl_finsh_t.wf(),
        lcl_recurrence.wf(lcl_dor),
    ensures
        r@ == gen_datetimes_spec(
            *nat_start,
            *nat_finsh,
            lcl_dor,
            lcl_recurrence,
            lcl_start_t,
            lcl_finsh_t,
        ),
        forall|x: int|
            #![trigger r@[x]]
            0 <= x < r@.len() ==> {
                &&& r@[x].0.in_range()
                &&& r@[x].1.in_range()
                &&& instant_seconds(r@[x].0) >= instant_seconds(*nat_start)
                &&& instant_seconds(r@[x].1) <= instant_seconds(*nat_finsh)
                &&& instant_seconds(r@[x].0) < instant_seconds(*nat_finsh)
                &&& instant_seconds(r@[x].1) > instant_seconds(*nat_start)
            },
        forall|x: int, y: int|
            #![trigger r@[x], r@[y]]
            0 <= x <= y < r@.len() ==> instant_seconds(r@[x].0) <= instant_seconds(r@[y].0),
{
    let ghost ns = *nat_start;
    let ghost nf = *nat_finsh;
    let mut out: Vec<(DateTime, DateTime)> = Vec::new();
    let first = prev_day(&nat_start.date);
    let first_dn: i64 = day_number_exec(&first);
    let fin_dn: i64 = day_number_exec(&nat_finsh.date);
    let ghost n_total = candidate_days(ns, nf);
    if fin_dn < first_dn {
        assert(out@ =~= gen_datetimes_spec(ns, nf, lcl_dor, lcl_recurrence, lcl_start_t,
        lcl_finsh_t));
        return out;
    }
    proof {
        lemma_gen_from_bounds(
            ns,
            nf,
            lcl_dor,
            lcl_recurrence,
            lcl_start_t,
            lcl_finsh_t,
            first,
            n_total,
        );
        lemma_gen_from_sorted(
            ns,
            nf,
            lcl_dor,
            lcl_recurrence,
            lcl_start_t,
            lcl_finsh_t,
            first,
            n_total,
        );
    }
    let mut d = first;
    let mut dn: i64 = first_dn;
    let over_midnight = seconds_of_day_exec(&lcl_finsh_t) < seconds_of_day_exec(&lcl_start_t);
    while dn <= fin_dn
        invariant
            ns == *nat_start,
            nf == *nat_finsh,
            ns.valid(),
            nf.valid(),
            lcl_start_t.wf(),
            lcl_finsh_t.wf(),
            lcl_recurrence.wf(lcl_dor),
            d.in_range(),
            day_number(d) == dn,
            first_dn <= dn <= fin_dn + 1,
            day_number(first) == first_dn,
            day_number(nf.date) == fin_dn,
            n_total == fin_dn - first_dn + 1,
            over_midnight == (seconds_of_day(lcl_finsh_t) < seconds_of_day(lcl_start_t)),
            gen_from(ns, nf, lcl_dor, lcl_recurrence, lcl_start_t, lcl_finsh_t, first, n_total)
                =~= out@ + gen_from(
                ns,
                nf,
                lcl_dor,
                lcl_recurrence,
                lcl_start_t,
                lcl_finsh_t,
                d,
                (fin_dn + 1 - dn) as nat,
            ),
        decreases fin_dn + 1 - dn,
    {
        proof {
            lemma_day_number_bounds(d);
            lemma_day_number_bounds(nf.date);
        }
        let start = DateTime { date: d, time: lcl_start_t };
        let finsh = if over_midnight {
            DateTime { date: next_day(&d), time: lcl_finsh_t }
        } else {
            DateTime { date: d, time: lcl_finsh_t }
        };
        let ghost remaining = (fin_dn + 1 - dn) as nat;
        if lcl_recurrence.matches(lcl_dor, &d) {
            let cs = dt_max_exec(nat_start, &start);
            let cf = dt_min_exec(nat_finsh, &finsh);
            let cs_s = instant_seconds_exec(&cs);
            let cf_s = instant_seconds_exec(&cf);
            let ns_s = instant_seconds_exec(nat_start);
            let nf_s = instant_seconds_exec(nat_finsh);
            if cf_s <= nf_s && cs_s < nf_s && cs_s >= ns_s && cf_s > ns_s {
                out.push((cs, cf));
            }
        }
        proof {
            assert(gen_from(ns, nf, lcl_dor, lcl_recurrence, lcl_start_t, lcl_finsh_t, d, remaining)
                =~= window_item(ns, nf, lcl_dor, lcl_recurrence, lcl_start_t, lcl_finsh_t, d)
                + gen_from(
                ns,
                nf,
                lcl_dor,
                lcl_recurrence,
                lcl_start_t,
                lcl_finsh_t,
                next_day_spec(d),
                (remaining - 1) as nat,
            ));
        }
        let next = next_day(&d);
        d = next;
        dn = dn + 1;
    }
    proof {
        assert(out@ =~= gen_datetimes_spec(ns, nf, lcl_dor, lcl_recurrence, lcl_start_t,
        lcl_finsh_t));
    }
    out
}

} // verus!
