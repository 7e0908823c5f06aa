//! The overlap validator: a data-integrity gate over the curated national
//! changes, run before any generation.  For every area, the changes that
//! apply to it must pairwise not overlap in time, except that changes with
//! identical field values never conflict with each other.

use vstd::prelude::*;

use crate::changes::Change;
use crate::changes::clone_like;
use crate::dates::instant_seconds;
use crate::dates::instant_seconds_exec;

verus! {

/// Two changes' half-open time ranges overlap.
pub open spec fn spec_overlaps(a: Change, b: Change) -> bool {
    instant_seconds(a.finsh) > instant_seconds(b.start) && instant_seconds(a.start)
        < instant_seconds(b.finsh)
}

/// No two distinct-valued changes that both apply to one of the given
/// areas overlap in time.
pub open spec fn no_conflicts(changes: Seq<Change>, areas: Seq<String>) -> bool {
    forall|k: int, i: int, j: int|
        #![trigger changes[i].spec_applies(areas[k]@), changes[j].spec_applies(areas[k]@)]
        0 <= k < areas.len() && 0 <= i < changes.len() && 0 <= j < changes.len()
            && changes[i].spec_applies(areas[k]@) && changes[j].spec_applies(areas[k]@)
            && !changes[i].spec_eq(changes[j]) ==> !spec_overlaps(changes[i], changes[j])
}

/// Two overlapping changes that both apply to one area: authoring error
/// in the curated data, fatal for the run.
#[derive(Debug)]
pub struct ConflictError {
    /// One of the conflicting changes.
    pub change1: Change,
    /// The other conflicting change.
    pub change2: Change,
    /// The area both changes apply to.
    pub area: String,
}

/// Decides `spec_overlaps`.
fn overlaps(a: &Change, b: &Change) -> (r: bool)
    requires
        a.wf(),
        b.wf(),
    ensures
        r == spec_overlaps(*a, *b),
{
    instant_seconds_exec(&a.finsh) > instant_seconds_exec(&b.start) && instant_seconds_exec(
        &a.start,
    ) < instant_seconds_exec(&b.finsh)
}

/// Checks the changes for illegal overlaps: succeeds exactly when no two
/// distinct-valued changes that both apply to one of the areas overlap,
/// and otherwise names a conflicting pair and the offending area.
pub fn err_if_overlaps(changes: &Vec<Change>, area_names: &Vec<String>) -> (r: Result<
    (),
    ConflictError,
>)
    requires
        forall|i: int| 0 <= i < changes@.len() ==> (#[trigger] changes@[i]).wf(),
    ensures
        r is Ok <==> no_conflicts(changes@, area_names@),
        r matches Err(e) ==> exists|k: int, i: int, j: int|
            {
                &&& 0 <= k < area_names@.len()
                &&& 0 <= i < changes@.len()
                &&& 0 <= j < changes@.len()
                &&& e.area@ == area_names@[k]@
                &&& clone_like(changes@[i], e.change1)
                &&& clone_like(changes@[j], e.change2)
                &&& changes@[i].spec_applies(area_names@[k]@)
                &&& changes@[j].spec_applies(area_names@[k]@)
                &&& !changes@[i].spec_eq(changes@[j])
                &&& spec_overlaps(changes@[i], changes@[j])
            },
{
    let mut k: usize = 0;
    while k < area_names.len()
        invariant
            forall|i: int| 0 <= i < changes@.len() ==> (#[trigger] changes@[i]).wf(),
            k <= area_names@.len(),
            forall|k2: int, i: int, j: int|
                #![trigger changes@[i].spec_applies(area_names@[k2]@), changes@[j].spec_applies(area_names@[k2]@)]
                0 <= k2 < k && 0 <= i < changes@.len() && 0 <= j < changes@.len()
                    && changes@[i].spec_applies(area_names@[k2]@) && changes@[j].spec_applies(
                    area_names@[k2]@,
                ) && !changes@[i].spec_eq(changes@[j]) ==> !spec_overlaps(
                    changes@[i],
                    changes@[j],
                ),
        decreases area_names@.len() - k,
    {
        let area = &area_names[k];
        let mut i: usize = 0;
        while i < changes.len()
            invariant
                forall|i2: int| 0 <= i2 < changes@.len() ==> (#[trigger] changes@[i2]).wf(),
                k < area_names@.len(),
                area == &area_names@[k as int],
                i <= changes@.len(),
                forall|k2: int, i2: int, j: int|
                    #![trigger changes@[i2].spec_applies(area_names@[k2]@), changes@[j].spec_applies(area_names@[k2]@)]
                    0 <= k2 < k && 0 <= i2 < changes@.len() && 0 <= j < changes@.len()
                        && changes@[i2].spec_applies(area_names@[k2]@) && changes@[j].spec_applies(
                        area_names@[k2]@,
                    ) && !changes@[i2].spec_eq(changes@[j]) ==> !spec_overlaps(
                        changes@[i2],
                        changes@[j],
                    ),
                forall|i2: int, j: int|
                    #![trigger changes@[i2].spec_applies(area@), changes@[j].spec_applies(area@)]
                    0 <= i2 < i && 0 <= j < changes@.len() && changes@[i2].spec_applies(area@)
                        && changes@[j].spec_applies(area@) && !changes@[i2].spec_eq(changes@[j])
                        ==> !spec_overlaps(changes@[i2], changes@[j]),
            decreases changes@.len() - i,
        {
            let ci = &changes[i];
            if ci.applies(area.as_str()) {
                let mut j: usize = 0;
                while j < changes.len()
                    invariant
                        forall|i2: int| 0 <= i2 < changes@.len() ==> (#[trigger] changes@[i2]).wf(),
                        k < area_names@.len(),
                        area == &area_names@[k as int],
                        i < changes@.len(),
                        ci == &changes@[i as int],
                        ci.spec_applies(area@),
                        j <= changes@.len(),
                        forall|j2: int|
                            #![trigger changes@[j2].spec_applies(area@)]
                            0 <= j2 < j && changes@[j2].spec_applies(area@) && !changes@[
                                i as int
                            ].spec_eq(changes@[j2]) ==> !spec_overlaps(
                                changes@[i as int],
                                changes@[j2],
                            ),
                    decreases changes@.len() - j,
                {
                    let cj = &changes[j];
                    if cj.applies(area.as_str()) && !ci.eq(cj) && (overlaps(ci, cj) || overlaps(
                        cj,
                        ci,
                    )) {
                        let e = ConflictError {
                            change1: ci.clone(),
                            change2: cj.clone(),
                            area: area.clone(),
                        };
                        proof {
                            let kk = k as int;
                            let ii = i as int;
                            let jj = j as int;
                            assert(changes@[ii].spec_applies(area_names@[kk]@));
                            assert(changes@[jj].spec_applies(area_names@[kk]@));
                            assert(spec_overlaps(changes@[ii], changes@[jj]));
                            assert(!no_conflicts(changes@, area_names@));
                        }
                        return Err(e);
                    }
                    j += 1;
                }
            }
            i += 1;
        }
        k += 1;
    }
    Ok(())
}

/// A pair of changes whose include/exclude applicability is disjoint for
/// an area never conflicts for that area, however their time ranges
/// relate.
pub proof fn lemma_disjoint_applicability_never_conflicts(c1: Change, c2: Change, area: String)
    requires
        !(c1.spec_applies(area@) && c2.spec_applies(area@)),
    ensures
        no_conflicts(seq![c1, c2], seq![area]),
{
}

/// A change never conflicts with an identical copy of itself: validating
/// a change together with its clone succeeds.
pub proof fn lemma_identical_changes_never_conflict(c1: Change, c2: Change, area: String)
    requires
        c1.spec_eq(c2),
    ensures
        no_conflicts(seq![c1, c2], seq![area]),
{
}

} // verus!
