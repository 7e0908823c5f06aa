//! The outage assembler: cross-products local recurring rows with the
//! applicable national changes of equal stage, runs the interval
//! generator over each combination in national-start order, and collects
//! the concrete outages together with the latest finish instant seen.

use vstd::prelude::*;
use vstd::string::StrSliceExecFns;

use crate::changes::Change;
use crate::changes::ChangeView;
use crate::changes::ManuallyInputSchedule;
use crate::dates::DateTime;
use crate::dates::dt_max;
use crate::dates::dt_max_exec;
use crate::dates::instant_seconds;
use crate::dates::instant_seconds_exec;
use crate::generate::gen_datetimes;
use crate::generate::gen_datetimes_spec;
use crate::outage::OutageView;
use crate::outage::PowerOutage;
use crate::schedule::RecurringShedding;

verus! {

/// The ghost images of the changes that apply to the area, in input
/// order.
pub open spec fn filtered_views(changes: Seq<Change>, area: Seq<char>) -> Seq<ChangeView>
    decreases changes.len(),
{
    if changes.len() == 0 {
        Seq::empty()
    } else {
        let rest = filtered_views(changes.drop_last(), area);
        if changes.last().spec_applies(area) {
            rest.push(changes.last()@)
        } else {
            rest
        }
    }
}

/// One local row paired with every equal-stage change, in change order.
pub open spec fn combos_for_one(s: RecurringShedding, cviews: Seq<ChangeView>) -> Seq<
    (RecurringShedding, ChangeView),
>
    decreases cviews.len(),
{
    if cviews.len() == 0 {
        Seq::empty()
    } else {
        let rest = combos_for_one(s, cviews.drop_last());
        if s.stage == cviews.last().stage {
            rest.push((s, cviews.last()))
        } else {
            rest
        }
    }
}

/// The stage-matched cartesian product of local rows and changes, rows
/// outermost.
pub open spec fn combos_views(
    sheddings: Seq<RecurringShedding>,
    cviews: Seq<ChangeView>,
) -> Seq<(RecurringShedding, ChangeView)>
    decreases sheddings.len(),
{
    if sheddings.len() == 0 {
        Seq::empty()
    } else {
        combos_views(sheddings.drop_last(), cviews) + combos_for_one(sheddings.last(), cviews)
    }
}

/// Combination order: by the national change's start instant.
pub open spec fn combo_before(
    a: (RecurringShedding, ChangeView),
    b: (RecurringShedding, ChangeView),
) -> bool {
    instant_seconds(a.1.start) < instant_seconds(b.1.start)
}

/// Where a stable insertion puts a combination.
pub open spec fn insert_pos_combo(
    s: Seq<(RecurringShedding, ChangeView)>,
    x: (RecurringShedding, ChangeView),
) -> int
    decreases s.len(),
{
    if s.len() == 0 {
        0
    } else if combo_before(x, s.last()) {
        insert_pos_combo(s.drop_last(), x)
    } else {
        s.len() as int
    }
}

/// Stable insertion of a combination.
pub open spec fn insert_sorted_combo(
    s: Seq<(RecurringShedding, ChangeView)>,
    x: (RecurringShedding, ChangeView),
) -> Seq<(RecurringShedding, ChangeView)>
    decreases s.len(),
{
    if s.len() == 0 {
        seq![x]
    } else if combo_before(x, s.last()) {
        insert_sorted_combo(s.drop_last(), x).push(s.last())
    } else {
        s.push(x)
    }
}

/// The stable sort of combinations by national start.
pub open spec fn sort_combos_spec(s: Seq<(RecurringShedding, ChangeView)>) -> Seq<
    (RecurringShedding, ChangeView),
>
    decreases s.len(),
{
    if s.len() == 0 {
        Seq::empty()
    } else {
        insert_sorted_combo(sort_combos_spec(s.drop_last()), s.last())
    }
}

/// The ghost images of a vector of concrete combinations.
pub open spec fn pair_views(s: Seq<(RecurringShedding, Change)>) -> Seq<
    (RecurringShedding, ChangeView),
> {
    s.map_values(|p: (RecurringShedding, Change)| (p.0, p.1@))
}

/// A concrete combination is usable: its change's window instants are in
/// the supported range and the row is well formed.
pub open spec fn combo_wf(p: (RecurringShedding, Change)) -> bool {
    p.0.wf() && p.1.wf()
}

proof fn lemma_insert_sorted_combo_form(
    s: Seq<(RecurringShedding, ChangeView)>,
    x: (RecurringShedding, ChangeView),
)
    ensures
        0 <= insert_pos_combo(s, x) <= s.len(),
        insert_sorted_combo(s, x) =~= s.subrange(0, insert_pos_combo(s, x)) + seq![x] + s.subrange(
            insert_pos_combo(s, x),
            s.len() as int,
        ),
    decreases s.len(),
{
    if s.len() == 0 {
    } else if combo_before(x, s.last()) {
        lemma_insert_sorted_combo_form(s.drop_last(), x);
        let pos = insert_pos_combo(s, x);
        assert(s.drop_last().subrange(0, pos) =~= s.subrange(0, pos));
        let tail_with_last = s.drop_last().subrange(pos, s.drop_last().len() as int).push(s.last());
        assert(tail_with_last =~= s.subrange(pos, s.len() as int));
    }
}

/// Inserts a combination at its stable position by national start.
fn insert_combo(v: &mut Vec<(RecurringShedding, Change)>, x: (RecurringShedding, Change))
    requires
        forall|i: int| 0 <= i < old(v)@.len() ==> combo_wf(#[trigger] old(v)@[i]),
        combo_wf(x),
    ensures
        pair_views(final(v)@) == insert_sorted_combo(pair_views(old(v)@), (x.0, x.1@)),
        forall|i: int| 0 <= i < final(v)@.len() ==> combo_wf(#[trigger] final(v)@[i]),
{
    let ghost s0 = v@;
    let ghost pv0 = pair_views(v@);
    let ghost xv = (x.0, x.1@);
    proof {
        lemma_insert_sorted_combo_form(pv0, xv);
        assert(pv0.subrange(0, pv0.len() as int) =~= pv0);
    }
    let mut idx: usize = v.len();
    while idx > 0 && instant_seconds_exec(&x.1.start) < instant_seconds_exec(&v[idx - 1].1.start)
        invariant
            forall|i: int| 0 <= i < v@.len() ==> combo_wf(#[trigger] v@[i]),
            combo_wf(x),
            v@ == s0,
            pv0 == pair_views(s0),
            xv == (x.0, x.1@),
            0 <= idx <= v@.len(),
            insert_pos_combo(pv0, xv) == insert_pos_combo(pv0.subrange(0, idx as int), xv),
        decreases idx,
    {
        proof {
            assert(pv0.subrange(0, idx as int).drop_last() =~= pv0.subrange(0, idx as int - 1));
            assert(pv0.subrange(0, idx as int).last() == pv0[idx as int - 1]);
        }
        idx -= 1;
    }
    proof {
        if idx > 0 {
            assert(pv0.subrange(0, idx as int).last() == pv0[idx as int - 1]);
            assert(insert_pos_combo(pv0.subrange(0, idx as int), xv) == idx);
        } else {
            assert(pv0.subrange(0, 0) =~= Seq::<(RecurringShedding, ChangeView)>::empty());
        }
    }
    v.insert(idx, x);
    proof {
        let pos = insert_pos_combo(pv0, xv);
        assert forall|i: int| 0 <= i < final(v)@.len() implies combo_wf(
            #[trigger] final(v)@[i],
        ) by {
            if i < idx {
                assert(final(v)@[i] == s0[i]);
            } else if i == idx {
                assert(final(v)@[i] == x);
            } else {
                assert(final(v)@[i] == s0[i - 1]);
            }
        };
        assert(pair_views(final(v)@) =~= insert_sorted_combo(pv0, xv));
    }
}

/// Pairs every local row with every equal-stage change and sorts the
/// pairs by the change's start instant, stably.  The area filter is not
/// applied here; callers pass the changes already filtered.
pub fn make_combinations_from_sheddings(
    monthly_sheddings: &Vec<RecurringShedding>,
    national_sheddings: &Vec<Change>,
) -> (r: Vec<(RecurringShedding, Change)>)
    requires
        forall|i: int|
            0 <= i < national_sheddings@.len() ==> (#[trigger] national_sheddings@[i]).wf(),
        forall|i: int|
            0 <= i < monthly_sheddings@.len() ==> (#[trigger] monthly_sheddings@[i]).wf(),
    ensures
        pair_views(r@) == sort_combos_spec(
            combos_views(
                monthly_sheddings@,
                national_sheddings@.map_values(|c: Change| c@),
            ),
        ),
        forall|i: int| 0 <= i < r@.len() ==> combo_wf(#[trigger] r@[i]),
{
    let ghost cviews = national_sheddings@.map_values(|c: Change| c@);
    let mut unsorted: Vec<(RecurringShedding, Change)> = Vec::new();
    let mut i: usize = 0;
    while i < monthly_sheddings.len()
        invariant
            forall|k: int|
                0 <= k < national_sheddings@.len() ==> (#[trigger] national_sheddings@[k]).wf(),
            forall|k: int|
                0 <= k < monthly_sheddings@.len() ==> (#[trigger] monthly_sheddings@[k]).wf(),
            cviews == national_sheddings@.map_values(|c: Change| c@),
            0 <= i <= monthly_sheddings@.len(),
            pair_views(unsorted@) == combos_views(
                monthly_sheddings@.subrange(0, i as int),
                cviews,
            ),
            forall|k: int| 0 <= k < unsorted@.len() ==> combo_wf(#[trigger] unsorted@[k]),
        decreases monthly_sheddings@.len() - i,
    {
        let monthly = monthly_sheddings[i];
        let mut j: usize = 0;
        while j < national_sheddings.len()
            invariant
                forall|k: int|
                    0 <= k < national_sheddings@.len() ==> (#[trigger] national_sheddings@[k]).wf(),
                cviews == national_sheddings@.map_values(|c: Change| c@),
                monthly == monthly_sheddings@[i as int],
                monthly.wf(),
                i < monthly_sheddings@.len(),
                0 <= j <= national_sheddings@.len(),
                pair_views(unsorted@) == combos_views(
                    monthly_sheddings@.subrange(0, i as int),
                    cviews,
                ) + combos_for_one(monthly, cviews.subrange(0, j as int)),
                forall|k: int| 0 <= k < unsorted@.len() ==> combo_wf(#[trigger] unsorted@[k]),
            decreases national_sheddings@.len() - j,
        {
            let ghost before = pair_views(unsorted@);
            if monthly.stage == national_sheddings[j].stage {
                unsorted.push((monthly, national_sheddings[j].clone()));
            }
            proof {
                assert(cviews.subrange(0, j as int + 1).drop_last() =~= cviews.subrange(
                    0,
                    j as int,
                ));
                assert(cviews.subrange(0, j as int + 1).last() == cviews[j as int]);
                assert(cviews[j as int] == national_sheddings@[j as int]@);
                if monthly.stage == national_sheddings@[j as int].stage {
                    assert(pair_views(unsorted@) =~= before.push(
                        (monthly, national_sheddings@[j as int]@),
                    ));
                }
            }
            j += 1;
        }
        proof {
            assert(cviews.subrange(0, cviews.len() as int) =~= cviews);
            assert(monthly_sheddings@.subrange(0, i as int + 1).drop_last()
                =~= monthly_sheddings@.subrange(0, i as int));
            assert(monthly_sheddings@.subrange(0, i as int + 1).last()
                == monthly_sheddings@[i as int]);
        }
        i += 1;
    }
    proof {
        assert(monthly_sheddings@.subrange(0, monthly_sheddings@.len() as int)
            =~= monthly_sheddings@);
    }
    let mut combos: Vec<(RecurringShedding, Change)> = Vec::new();
    let mut k: usize = 0;
    while k < unsorted.len()
        invariant
            forall|t: int| 0 <= t < unsorted@.len() ==> combo_wf(#[trigger] unsorted@[t]),
            0 <= k <= unsorted@.len(),
            pair_views(combos@) == sort_combos_spec(pair_views(unsorted@).subrange(0, k as int)),
            forall|t: int| 0 <= t < combos@.len() ==> combo_wf(#[trigger] combos@[t]),
        decreases unsorted@.len() - k,
    {
        let x = (unsorted[k].0, unsorted[k].1.clone());
        proof {
            assert(combo_wf(unsorted@[k as int]));
            assert(x.1@ == unsorted@[k as int].1@);
        }
        insert_combo(&mut combos, x);
        proof {
            assert(pair_views(unsorted@).subrange(0, k as int + 1).drop_last() =~= pair_views(
                unsorted@,
            ).subrange(0, k as int));
            assert(pair_views(unsorted@).subrange(0, k as int + 1).last() == pair_views(unsorted@)[
                k as int
            ]);
            assert((x.0, x.1@) == pair_views(unsorted@)[k as int]);
        }
        k += 1;
    }
    proof {
        assert(pair_views(unsorted@).subrange(0, unsorted@.len() as int) =~= pair_views(
            unsorted@,
        ));
    }
    combos
}

/// What one combination contributes: the generated pairs as outages for
/// the area, at the row's stage, citing the change's source.
pub open spec fn outs_of_combo(area: Seq<char>, c: (RecurringShedding, ChangeView)) -> Seq<
    OutageView,
> {
    gen_datetimes_spec(
        c.1.start,
        c.1.finsh,
        c.0.day_of_recurrence,
        c.0.recurrence,
        c.0.start_time,
        c.0.finsh_time,
    ).map_values(
        |dt: (DateTime, DateTime)|
            OutageView {
                area_name: area,
                stage: c.0.stage,
                start: dt.0,
                finsh: dt.1,
                source: c.1.source,
            },
    )
}

/// The outages of a list of combinations, in order.
pub open spec fn outages_from(area: Seq<char>, combos: Seq<(RecurringShedding, ChangeView)>) -> Seq<
    OutageView,
>
    decreases combos.len(),
{
    if combos.len() == 0 {
        Seq::empty()
    } else {
        outages_from(area, combos.drop_last()) + outs_of_combo(area, combos.last())
    }
}

/// The latest finish instant of a list of outages, tracked in order;
/// `None` when there are none.
pub open spec fn last_finsh_spec(views: Seq<OutageView>) -> Option<DateTime>
    decreases views.len(),
{
    if views.len() == 0 {
        None
    } else {
        let f = views.last().finsh;
        match last_finsh_spec(views.drop_last()) {
            None => Some(f),
            Some(le) => Some(dt_max(le, f)),
        }
    }
}

/// Everything the assembler produces for one area.
pub open spec fn assemble_views(
    area: Seq<char>,
    sheddings: Seq<RecurringShedding>,
    changes: Seq<Change>,
) -> Seq<OutageView> {
    outages_from(area, sort_combos_spec(combos_views(sheddings, filtered_views(changes, area))))
}

/// Re-running the area filter and the assembler on the same inputs
/// yields identical outage lists and the same latest finish: the result
/// is a function of the inputs alone, with no hidden time-dependent
/// state.
pub proof fn lemma_assemble_deterministic(
    area: Seq<char>,
    sheddings: Seq<RecurringShedding>,
    changes: Seq<Change>,
    r1: Seq<OutageView>,
    r2: Seq<OutageView>,
)
    requires
        r1 == assemble_views(area, sheddings, changes),
        r2 == assemble_views(area, sheddings, changes),
    ensures
        r1 == r2,
        last_finsh_spec(r1) == last_finsh_spec(r2),
{
}

/// Converts one area's local rows and the national changes into that
/// area's concrete outages and the latest finish instant seen.  Changes
/// that do not apply to the area are dropped; rows and changes pair up
/// by equal stage; an area without a single pairing simply yields no
/// outages.
pub fn calculate_power_outages(
    area_name: &str,
    monthly_sheddings: &Vec<RecurringShedding>,
    manually_specified: &ManuallyInputSchedule,
) -> (r: (Vec<PowerOutage>, Option<DateTime>))
    requires
        forall|i: int|
            0 <= i < monthly_sheddings@.len() ==> (#[trigger] monthly_sheddings@[i]).wf(),
        forall|i: int|
            0 <= i < manually_specified.changes@.len() ==> (
            #[trigger] manually_specified.changes@[i]).wf(),
    ensures
        r.0@.map_values(|p: PowerOutage| p@) == assemble_views(
            area_name@,
            monthly_sheddings@,
            manually_specified.changes@,
        ),
        r.1 == last_finsh_spec(
            assemble_views(area_name@, monthly_sheddings@, manually_specified.changes@),
        ),
        forall|i: int| 0 <= i < r.0@.len() ==> (#[trigger] r.0@[i]).wf(),
        r.1 matches Some(f) ==> f.in_range(),
{
    let ghost all_changes = manually_specified.changes@;
    let mut national: Vec<Change> = Vec::new();
    let mut i: usize = 0;
    while i < manually_specified.changes.len()
        invariant
            forall|k: int| 0 <= k < all_changes.len() ==> (#[trigger] all_changes[k]).wf(),
            all_changes == manually_specified.changes@,
            0 <= i <= all_changes.len(),
            national@.map_values(|c: Change| c@) == filtered_views(
                all_changes.subrange(0, i as int),
                area_name@,
            ),
            forall|k: int| 0 <= k < national@.len() ==> (#[trigger] national@[k]).wf(),
        decreases all_changes.len() - i,
    {
        let ghost before = national@.map_values(|c: Change| c@);
        let c = &manually_specified.changes[i];
        if c.applies(area_name) {
            national.push(c.clone());
        }
        proof {
            assert(all_changes.subrange(0, i as int + 1).drop_last() =~= all_changes.subrange(
                0,
                i as int,
            ));
            assert(all_changes.subrange(0, i as int + 1).last() == all_changes[i as int]);
            if all_changes[i as int].spec_applies(area_name@) {
                assert(national@.map_values(|c: Change| c@) =~= before.push(
                    all_changes[i as int]@,
                ));
            }
        }
        i += 1;
    }
    proof {
        assert(all_changes.subrange(0, all_changes.len() as int) =~= all_changes);
    }
    let combos = make_combinations_from_sheddings(monthly_sheddings, &national);
    let ghost combo_seq = pair_views(combos@);
    let ghost target = outages_from(area_name@, combo_seq);
    let mut outages: Vec<PowerOutage> = Vec::new();
    let mut last_finsh: Option<DateTime> = None;
    let mut k: usize = 0;
    while k < combos.len()
        invariant
            forall|t: int| 0 <= t < combos@.len() ==> combo_wf(#[trigger] combos@[t]),
            combo_seq == pair_views(combos@),
            0 <= k <= combos@.len(),
            outages@.map_values(|p: PowerOutage| p@) == outages_from(
                area_name@,
                combo_seq.subrange(0, k as int),
            ),
            last_finsh == last_finsh_spec(outages@.map_values(|p: PowerOutage| p@)),
            forall|t: int| 0 <= t < outages@.len() ==> (#[trigger] outages@[t]).wf(),
            last_finsh matches Some(f) ==> f.in_range(),
        decreases combos@.len() - k,
    {
        let local = combos[k].0;
        let natnl = &combos[k].1;
        proof {
            assert(combo_wf(combos@[k as int]));
        }
        let datetimes = gen_datetimes(
            &natnl.start,
            &natnl.finsh,
            local.day_of_recurrence,
            local.recurrence,
            local.start_time,
            local.finsh_time,
        );
        let ghost combo_v = combo_seq[k as int];
        let mut t: usize = 0;
        while t < datetimes.len()
            invariant
                forall|u: int| 0 <= u < combos@.len() ==> combo_wf(#[trigger] combos@[u]),
                combo_seq == pair_views(combos@),
                k < combos@.len(),
                combo_v == combo_seq[k as int],
                local == combos@[k as int].0,
                natnl == &combos@[k as int].1,
                datetimes@ == gen_datetimes_spec(
                    combo_v.1.start,
                    combo_v.1.finsh,
                    combo_v.0.day_of_recurrence,
                    combo_v.0.recurrence,
                    combo_v.0.start_time,
                    combo_v.0.finsh_time,
                ),
                forall|u: int|
                    0 <= u < datetimes@.len() ==> (#[trigger] datetimes@[u]).0.in_range() && (
                    #[trigger] datetimes@[u]).1.in_range(),
                0 <= t <= datetimes@.len(),
                outages@.map_values(|p: PowerOutage| p@) == outages_from(
                    area_name@,
                    combo_seq.subrange(0, k as int),
                ) + outs_of_combo(area_name@, combo_v).subrange(0, t as int),
                last_finsh == last_finsh_spec(outages@.map_values(|p: PowerOutage| p@)),
                forall|u: int| 0 <= u < outages@.len() ==> (#[trigger] outages@[u]).wf(),
                last_finsh matches Some(f) ==> f.in_range(),
            decreases datetimes@.len() - t,
        {
            let ghost before = outages@.map_values(|p: PowerOutage| p@);
            let dt = datetimes[t];
            last_finsh = match last_finsh {
                None => Some(dt.1),
                Some(le) => Some(dt_max_exec(&le, &dt.1)),
            };
            outages.push(
                PowerOutage {
                    area_name: area_name.to_owned(),
                    stage: local.stage,
                    start: dt.0,
                    finsh: dt.1,
                    source: natnl.source.clone(),
                },
            );
            proof {
                let ov = outs_of_combo(area_name@, combo_v)[t as int];
                assert(outages@.map_values(|p: PowerOutage| p@) =~= before.push(ov));
                assert(outs_of_combo(area_name@, combo_v).subrange(0, t as int + 1) =~= outs_of_combo(
                    area_name@,
                    combo_v,
                ).subrange(0, t as int).push(ov));
                assert(before.push(ov).drop_last() =~= before);
            }
            t += 1;
        }
        proof {
            assert(combo_seq.subrange(0, k as int + 1).drop_last() =~= combo_seq.subrange(
                0,
                k as int,
            ));
            assert(combo_seq.subrange(0, k as int + 1).last() == combo_seq[k as int]);
            assert(outs_of_combo(area_name@, combo_v).subrange(
                0,
                outs_of_combo(area_name@, combo_v).len() as int,
            ) =~= outs_of_combo(area_name@, combo_v));
        }
        k += 1;
    }
    proof {
        assert(combo_seq.subrange(0, combo_seq.len() as int) =~= combo_seq);
    }
    (outages, last_finsh)
}

} // verus!
