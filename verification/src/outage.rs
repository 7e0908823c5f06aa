//! Concrete materialized outages and the deterministic orders the output
//! artifacts use: the full CSV key (area, start, finish, stage, source)
//! and the start-instant order the calendar writer uses.

use vstd::prelude::*;
use vstd::string::StrSliceExecFns;
use vstd::string::StringExecFns;

use crate::dates::DateTime;
use crate::dates::instant_seconds;
use crate::dates::instant_seconds_exec;

verus! {

/// A single duration of time for which the power will be out for an
/// area, at a stage, with the source of the information.
#[derive(Debug)]
pub struct PowerOutage {
    /// The affected area.
    pub area_name: String,
    /// The stage of loadshedding.
    pub stage: u8,
    /// When the outage starts.
    pub start: DateTime,
    /// When the outage finishes (note the spelling).
    pub finsh: DateTime,
    /// Where this information came from.
    pub source: String,
}

/// The ghost image of a `PowerOutage`.
pub struct OutageView {
    pub area_name: Seq<char>,
    pub stage: u8,
    pub start: DateTime,
    pub finsh: DateTime,
    pub source: Seq<char>,
}

impl View for PowerOutage {
    type V = OutageView;

    open spec fn view(&self) -> OutageView {
        OutageView {
            area_name: self.area_name@,
            stage: self.stage,
            start: self.start,
            finsh: self.finsh,
            source: self.source@,
        }
    }
}

impl PowerOutage {
    pub open spec fn wf(self) -> bool {
        self.start.in_range() && self.finsh.in_range()
    }

    pub open spec fn spec_eq(self, other: PowerOutage) -> bool {
        &&& self.area_name@ == other.area_name@
        &&& self.stage == other.stage
        &&& self.start == other.start
        &&& self.finsh == other.finsh
        &&& self.source@ == other.source@
    }

    /// The header line of the machine-readable table.
    pub fn csv_header() -> (r: String)
        ensures
            r@ == "area_name,start,finsh,stage,source"@,
    {
        String::from_str("area_name,start,finsh,stage,source")
    }
}

impl PartialEq for PowerOutage {
    fn eq(&self, other: &Self) -> (r: bool) {
        self.area_name == other.area_name && self.stage == other.stage && self.start == other.start
            && self.finsh == other.finsh && self.source == other.source
    }
}

impl vstd::std_specs::cmp::PartialEqSpecImpl for PowerOutage {
    open spec fn obeys_eq_spec() -> bool {
        true
    }

    open spec fn eq_spec(&self, other: &PowerOutage) -> bool {
        self.spec_eq(*other)
    }
}

impl Clone for PowerOutage {
    fn clone(&self) -> (r: Self)
        ensures
            r == *self,
    {
        PowerOutage {
            area_name: self.area_name.clone(),
            stage: self.stage,
            start: self.start,
            finsh: self.finsh,
            source: self.source.clone(),
        }
    }
}

/// Lexicographic order on strings by code point, from position `i` on;
/// a proper prefix sorts first, as the standard library orders strings.
pub open spec fn str_lt_from(a: Seq<char>, b: Seq<char>, i: int) -> bool
    decreases b.len() - i,
{
    if i >= b.len() {
        false
    } else if i >= a.len() {
        true
    } else if (a[i] as u32) < (b[i] as u32) {
        true
    } else if (a[i] as u32) == (b[i] as u32) {
        str_lt_from(a, b, i + 1)
    } else {
        false
    }
}

/// Lexicographic order on strings by code point.
pub open spec fn str_lt(a: Seq<char>, b: Seq<char>) -> bool {
    str_lt_from(a, b, 0)
}

/// Decides `str_lt`.
pub fn str_lt_exec(a: &str, b: &str) -> (r: bool)
    ensures
        r == str_lt(a@, b@),
{
    let a_len = a.unicode_len();
    let b_len = b.unicode_len();
    let mut i: usize = 0;
    loop
        invariant
            a_len == a@.len(),
            b_len == b@.len(),
            0 <= i <= a_len,
            0 <= i <= b_len,
            str_lt(a@, b@) == str_lt_from(a@, b@, i as int),
        decreases b_len - i,
    {
        if i >= b_len {
            return false;
        }
        if i >= a_len {
            return true;
        }
        let ca = a.get_char(i) as u32;
        let cb = b.get_char(i) as u32;
        if ca < cb {
            return true;
        }
        if ca > cb {
            return false;
        }
        i += 1;
    }
}

/// The order an outage precedes another in: by area name, then start,
/// then finish, then stage, then source (the full CSV key), or by the
/// start instant alone when `by_start_only` holds.
pub open spec fn po_before(a: PowerOutage, b: PowerOutage, by_start_only: bool) -> bool {
    if by_start_only {
        instant_seconds(a.start) < instant_seconds(b.start)
    } else {
        ||| str_lt(a.area_name@, b.area_name@)
        ||| (a.area_name@ == b.area_name@ && instant_seconds(a.start) < instant_seconds(b.start))
        ||| (a.area_name@ == b.area_name@ && instant_seconds(a.start) == instant_seconds(b.start)
            && instant_seconds(a.finsh) < instant_seconds(b.finsh))
        ||| (a.area_name@ == b.area_name@ && instant_seconds(a.start) == instant_seconds(b.start)
            && instant_seconds(a.finsh) == instant_seconds(b.finsh) && a.stage < b.stage)
        ||| (a.area_name@ == b.area_name@ && instant_seconds(a.start) == instant_seconds(b.start)
            && instant_seconds(a.finsh) == instant_seconds(b.finsh) && a.stage == b.stage
            && str_lt(a.source@, b.source@))
    }
}

/// Decides `po_before`.
fn po_before_exec(a: &PowerOutage, b: &PowerOutage, by_start_only: bool) -> (r: bool)
    requires
        a.wf(),
        b.wf(),
    ensures
        r == po_before(*a, *b, by_start_only),
{
    if by_start_only {
        instant_seconds_exec(&a.start) < instant_seconds_exec(&b.start)
    } else {
        if str_lt_exec(a.area_name.as_str(), b.area_name.as_str()) {
            return true;
        }
        if !(a.area_name == b.area_name) {
            return false;
        }
        let a_start = instant_seconds_exec(&a.start);
        let b_start = instant_seconds_exec(&b.start);
        if a_start != b_start {
            return a_start < b_start;
        }
        let a_finsh = instant_seconds_exec(&a.finsh);
        let b_finsh = instant_seconds_exec(&b.finsh);
        if a_finsh != b_finsh {
            return a_finsh < b_finsh;
        }
        if a.stage != b.stage {
            return a.stage < b.stage;
        }
        str_lt_exec(a.source.as_str(), b.source.as_str())
    }
}

/// Where a stable insertion puts `x`: after every element it does not
/// strictly precede.
pub open spec fn insert_pos(s: Seq<PowerOutage>, x: PowerOutage, by_start_only: bool) -> int
    decreases s.len(),
{
    if s.len() == 0 {
        0
    } else if po_before(x, s.last(), by_start_only) {
        insert_pos(s.drop_last(), x, by_start_only)
    } else {
        s.len() as int
    }
}

/// Stable insertion of `x` into an ordered sequence.
pub open spec fn insert_sorted(s: Seq<PowerOutage>, x: PowerOutage, by_start_only: bool) -> Seq<
    PowerOutage,
>
    decreases s.len(),
{
    if s.len() == 0 {
        seq![x]
    } else if po_before(x, s.last(), by_start_only) {
        insert_sorted(s.drop_last(), x, by_start_only).push(s.last())
    } else {
        s.push(x)
    }
}

/// The stable insertion sort of a sequence of outages.
pub open spec fn sort_outages_spec(s: Seq<PowerOutage>, by_start_only: bool) -> Seq<PowerOutage>
    decreases s.len(),
{
    if s.len() == 0 {
        Seq::empty()
    } else {
        insert_sorted(sort_outages_spec(s.drop_last(), by_start_only), s.last(), by_start_only)
    }
}

/// `insert_sorted` in closed form: the sequence split at `insert_pos`
/// with `x` in the middle.
proof fn lemma_insert_sorted_form(s: Seq<PowerOutage>, x: PowerOutage, by_start_only: bool)
    ensures
        0 <= insert_pos(s, x, by_start_only) <= s.len(),
        insert_sorted(s, x, by_start_only) =~= s.subrange(0, insert_pos(s, x, by_start_only))
            + seq![x] + s.subrange(insert_pos(s, x, by_start_only), s.len() as int),
    decreases s.len(),
{
    if s.len() == 0 {
    } else if po_before(x, s.last(), by_start_only) {
        lemma_insert_sorted_form(s.drop_last(), x, by_start_only);
        let pos = insert_pos(s, x, by_start_only);
        assert(s.drop_last().subrange(0, pos) =~= s.subrange(0, pos));
        let tail_with_last = s.drop_last().subrange(pos, s.drop_last().len() as int).push(s.last());
        assert(tail_with_last =~= s.subrange(pos, s.len() as int));
    }
}

/// Inserts `x` at its stable position.
fn insert_outage(v: &mut Vec<PowerOutage>, x: PowerOutage, by_start_only: bool)
    requires
        forall|i: int| 0 <= i < old(v)@.len() ==> (#[trigger] old(v)@[i]).wf(),
        x.wf(),
    ensures
        final(v)@ == insert_sorted(old(v)@, x, by_start_only),
        forall|i: int| 0 <= i < final(v)@.len() ==> (#[trigger] final(v)@[i]).wf(),
{
    proof {
        lemma_insert_sorted_form(v@, x, by_start_only);
        assert(v@.subrange(0, v@.len() as int) =~= v@);
    }
    let ghost s0 = v@;
    let mut idx: usize = v.len();
    while idx > 0 && po_before_exec(&x, &v[idx - 1], by_start_only)
        invariant
            forall|i: int| 0 <= i < v@.len() ==> (#[trigger] v@[i]).wf(),
            x.wf(),
            v@ == s0,
            0 <= idx <= v@.len(),
            insert_pos(s0, x, by_start_only) == insert_pos(
                s0.subrange(0, idx as int),
                x,
                by_start_only,
            ),
        decreases idx,
    {
        proof {
            assert(s0.subrange(0, idx as int).drop_last() =~= s0.subrange(0, idx as int - 1));
        }
        idx -= 1;
    }
    proof {
        if idx > 0 {
            assert(insert_pos(s0.subrange(0, idx as int), x, by_start_only) == idx);
        } else {
            assert(s0.subrange(0, 0) =~= Seq::<PowerOutage>::empty());
        }
    }
    v.insert(idx, x);
    proof {
        assert(final(v)@ =~= insert_sorted(s0, x, by_start_only));
        assert forall|i: int| 0 <= i < final(v)@.len() implies (#[trigger] final(v)@[i]).wf() by {
            let pos = insert_pos(s0, x, by_start_only);
            if i < pos {
                assert(final(v)@[i] == s0[i]);
            } else if i == pos {
                assert(final(v)@[i] == x);
            } else {
                assert(final(v)@[i] == s0[i - 1]);
            }
        };
    }
}

/// Sorts outages stably: by the full CSV key, or by the start instant
/// alone when `by_start_only` holds.
pub fn sorted_outages(v: &Vec<PowerOutage>, by_start_only: bool) -> (r: Vec<PowerOutage>)
    requires
        forall|i: int| 0 <= i < v@.len() ==> (#[trigger] v@[i]).wf(),
    ensures
        r@ == sort_outages_spec(v@, by_start_only),
        forall|i: int| 0 <= i < r@.len() ==> (#[trigger] r@[i]).wf(),
{
    let mut out: Vec<PowerOutage> = Vec::new();
    let mut k: usize = 0;
    while k < v.len()
        invariant
            forall|i: int| 0 <= i < v@.len() ==> (#[trigger] v@[i]).wf(),
            0 <= k <= v@.len(),
            out@ == sort_outages_spec(v@.subrange(0, k as int), by_start_only),
            forall|i: int| 0 <= i < out@.len() ==> (#[trigger] out@[i]).wf(),
        decreases v@.len() - k,
    {
        let x = v[k].clone();
        insert_outage(&mut out, x, by_start_only);
        proof {
            assert(v@.subrange(0, k as int + 1).drop_last() =~= v@.subrange(0, k as int));
            assert(v@.subrange(0, k as int + 1).last() == v@[k as int]);
        }
        k += 1;
    }
    proof {
        assert(v@.subrange(0, v@.len() as int) =~= v@);
    }
    out
}

} // verus!
