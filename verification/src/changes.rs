//! National loadshedding changes: curated time windows with stage and
//! area filters.
//!
//! Area filters are regular expressions compiled and run by the `regex`
//! crate behind a small trusted boundary.  A compiled regex is opaque to
//! the proofs: `regex_pattern` names the pattern string it was built from
//! (what `Regex::as_str` returns) and `regex_matches` names its match
//! verdict on a haystack; both are deterministic functions of the regex
//! value and the text.

use vstd::prelude::*;
use vstd::string::StrSliceExecFns;
use vstd::string::StringExecFns;

use crate::dates::DateTime;
use crate::errors::ConfigError;
use crate::text::parse_datetime;
use crate::text::parse_datetime_spec;
use crate::text::str_eq;

verus! {

#[verifier::external_type_specification]
#[verifier::external_body]
pub struct ExRegex(regex::Regex);

/// The pattern string a compiled regex was built from, as
/// `regex::Regex::as_str` reports it.
pub uninterp spec fn regex_pattern(re: regex::Regex) -> Seq<char>;

/// The match verdict of a compiled regex on a haystack, as
/// `regex::Regex::is_match` computes it.
pub uninterp spec fn regex_matches(re: regex::Regex, text: Seq<char>) -> bool;

/// Whether `regex::Regex::new` accepts a pattern: a function of the
/// pattern alone, since the parser and the default size limit are fixed.
pub uninterp spec fn regex_compiles(pattern: Seq<char>) -> bool;

/// Relies on regex::Regex::new: whether compilation succeeds depends on
/// the pattern alone (the parse and the default size limit are fixed),
/// and on success the compiled regex reports the given pattern as its
/// original string.
#[verifier::external_body]
fn regex_new(pattern: &str) -> (r: Option<regex::Regex>)
    ensures
        r is Some <==> regex_compiles(pattern@),
        r is Some ==> regex_pattern(r->0) == pattern@,
{
    regex::Regex::new(pattern).ok()
}

/// Relies on regex::Regex::is_match: true iff the regex matches anywhere
/// in the haystack, a deterministic function of the regex and the text.
#[verifier::external_body]
fn regex_is_match(re: &regex::Regex, text: &str) -> (r: bool)
    ensures
        r == regex_matches(*re, text@),
{
    re.is_match(text)
}

/// Relies on regex::Regex::as_str: returns the original pattern string.
#[verifier::external_body]
fn regex_as_str<'a>(re: &'a regex::Regex) -> (r: &'a str)
    ensures
        r@ == regex_pattern(*re),
{
    re.as_str()
}

/// Relies on regex::Regex::clone, which shares the compiled program: the
/// clone reports the same pattern and matches the same haystacks.
#[verifier::external_body]
fn regex_clone(re: &regex::Regex) -> (r: regex::Regex)
    ensures
        regex_pattern(r) == regex_pattern(*re),
        forall|t: Seq<char>| regex_matches(r, t) == regex_matches(*re, t),
{
    re.clone()
}

/// What str::to_lowercase returns, a function of the characters alone.
pub uninterp spec fn lower_of(s: Seq<char>) -> Seq<char>;

/// Relies on str::to_lowercase: the result depends on the characters
/// alone.
#[verifier::external_body]
fn lowercase(s: &str) -> (r: String)
    ensures
        r@ == lower_of(s@),
{
    s.to_lowercase()
}

/// A single curated window of loadshedding at one stage, with area
/// filters.
#[derive(Debug)]
pub struct Change {
    /// When the shedding starts.
    pub start: DateTime,
    /// When the shedding ends (note the spelling, kept in line with
    /// `start`).
    pub finsh: DateTime,
    /// The stage of loadshedding.
    pub stage: u8,
    /// Where this information came from.
    pub source: String,
    /// Areas must match this pattern for the change to apply to them.
    pub include_regex: regex::Regex,
    /// Areas matching this pattern are excluded from the change.
    pub exclude_regex: regex::Regex,
}

/// A raw national change record: timestamps as text and area filters
/// given as explicit patterns or as shorthand tokens.
#[derive(Clone, Debug)]
pub struct RawChange {
    /// When the shedding starts, `YYYY-MM-DDTHH:MM:SS`.
    pub start: String,
    /// When the shedding ends, `YYYY-MM-DDTHH:MM:SS` (note the spelling).
    pub finsh: String,
    /// The stage of loadshedding.
    pub stage: u8,
    /// Where this information came from.
    pub source: String,
    /// An explicit include pattern; wins over any shorthand.
    pub include_regex: Option<String>,
    /// An explicit exclude pattern; wins over any shorthand.
    pub exclude_regex: Option<String>,
    /// A shorthand token for the include pattern.
    pub include_short: Option<String>,
    /// A shorthand token for the exclude pattern.
    pub exclude_short: Option<String>,
}

/// The ghost image of a `Change`: its plain fields and the two pattern
/// strings.
pub struct ChangeView {
    pub start: DateTime,
    pub finsh: DateTime,
    pub stage: u8,
    pub source: Seq<char>,
    pub include_pattern: Seq<char>,
    pub exclude_pattern: Seq<char>,
}

impl View for Change {
    type V = ChangeView;

    open spec fn view(&self) -> ChangeView {
        ChangeView {
            start: self.start,
            finsh: self.finsh,
            stage: self.stage,
            source: self.source@,
            include_pattern: regex_pattern(self.include_regex),
            exclude_pattern: regex_pattern(self.exclude_regex),
        }
    }
}

impl Change {
    pub open spec fn wf(self) -> bool {
        self.start.valid() && self.finsh.valid()
    }

    /// Value equality as the overlap validator uses it: the plain fields
    /// and the two pattern strings agree.
    pub open spec fn spec_eq(self, other: Change) -> bool {
        &&& self.start == other.start
        &&& self.finsh == other.finsh
        &&& self.stage == other.stage
        &&& self.source@ == other.source@
        &&& regex_pattern(self.include_regex) == regex_pattern(other.include_regex)
        &&& regex_pattern(self.exclude_regex) == regex_pattern(other.exclude_regex)
    }

    /// Decides `wf`.
    pub fn is_wf(&self) -> (r: bool)
        ensures
            r == self.wf(),
    {
        self.start.is_valid() && self.finsh.is_valid()
    }

    /// The change applies to an area iff the area fails the exclude
    /// pattern and passes the include pattern.
    pub open spec fn spec_applies(self, area: Seq<char>) -> bool {
        !regex_matches(self.exclude_regex, area) && regex_matches(self.include_regex, area)
    }

    /// Decides whether this change applies to the named area.
    pub fn applies(&self, area_name: &str) -> (r: bool)
        ensures
            r == self.spec_applies(area_name@),
    {
        !regex_is_match(&self.exclude_regex, area_name) && regex_is_match(
            &self.include_regex,
            area_name,
        )
    }
}

impl PartialEq for Change {
    fn eq(&self, other: &Self) -> (r: bool) {
        self.start == other.start && self.finsh == other.finsh && self.stage == other.stage
            && self.source == other.source && str_eq(
            regex_as_str(&self.include_regex),
            regex_as_str(&other.include_regex),
        ) && str_eq(regex_as_str(&self.exclude_regex), regex_as_str(&other.exclude_regex))
    }
}

impl vstd::std_specs::cmp::PartialEqSpecImpl for Change {
    open spec fn obeys_eq_spec() -> bool {
        true
    }

    open spec fn eq_spec(&self, other: &Change) -> bool {
        self.spec_eq(*other)
    }
}

/// The clone carries the same plain fields and behaviourally equal
/// regexes.
pub open spec fn clone_like(a: Change, b: Change) -> bool {
    &&& b.start == a.start
    &&& b.finsh == a.finsh
    &&& b.stage == a.stage
    &&& b.source@ == a.source@
    &&& regex_pattern(b.include_regex) == regex_pattern(a.include_regex)
    &&& regex_pattern(b.exclude_regex) == regex_pattern(a.exclude_regex)
    &&& forall|t: Seq<char>| regex_matches(b.include_regex, t) == regex_matches(a.include_regex, t)
    &&& forall|t: Seq<char>| regex_matches(b.exclude_regex, t) == regex_matches(a.exclude_regex, t)
}

impl Clone for Change {
    fn clone(&self) -> (r: Self)
        ensures
            clone_like(*self, r),
            r.spec_eq(*self),
    {
        Change {
            start: self.start,
            finsh: self.finsh,
            stage: self.stage,
            source: self.source.clone(),
            include_regex: regex_clone(&self.include_regex),
            exclude_regex: regex_clone(&self.exclude_regex),
        }
    }
}

/// The canonical pattern a shorthand token expands to, after case
/// folding; unknown tokens fall back to the given default.
pub open spec fn spec_shorthand_to_regex(lower: Seq<char>, default: Seq<char>) -> Seq<char> {
    if lower == "citypower"@ || lower == "cp"@ {
        "city-power-\\d{1,2}"@
    } else if lower == "capetown"@ || lower == "cpt"@ || lower == "coct"@ {
        "city-of-cape-town(-area-\\d{1,2})?"@
    } else if lower == "ekurhuleni"@ {
        "gauteng-ekurhuleni-block-\\d{1,2}"@
    } else if lower == "eskom"@ {
        "^(eskom)|(eastern-cape-)|(free-state-)|(kwazulu-natal-)|(limpopo-)|(mpumalanga-)|(north-west-)|(northern-cape-)|(western-cape-)"@
    } else if lower == "tshwane"@ {
        "gauteng-tshwane-group-\\d{1,2}"@
    } else {
        default
    }
}

/// Expands a shorthand token, case-insensitively, into its canonical
/// pattern.
fn shorthand_to_regex(shorthand: &str, default: &str) -> (r: String)
    ensures
        r@ == spec_shorthand_to_regex(lower_of(shorthand@), default@),
{
    let low_string = lowercase(shorthand);
    let low = low_string.as_str();
    if str_eq(low, "citypower") || str_eq(low, "cp") {
        String::from_str("city-power-\\d{1,2}")
    } else if str_eq(low, "capetown") || str_eq(low, "cpt") || str_eq(low, "coct") {
        String::from_str("city-of-cape-town(-area-\\d{1,2})?")
    } else if str_eq(low, "ekurhuleni") {
        String::from_str("gauteng-ekurhuleni-block-\\d{1,2}")
    } else if str_eq(low, "eskom") {
        String::from_str(
            "^(eskom)|(eastern-cape-)|(free-state-)|(kwazulu-natal-)|(limpopo-)|(mpumalanga-)|(north-west-)|(northern-cape-)|(western-cape-)",
        )
    } else if str_eq(low, "tshwane") {
        String::from_str("gauteng-tshwane-group-\\d{1,2}")
    } else {
        String::from_str(default)
    }
}

/// The include pattern a raw change resolves to: the explicit pattern if
/// given, else the shorthand's expansion, else match-everything.
pub open spec fn spec_include_pattern(raw: RawChange) -> Seq<char> {
    match raw.include_regex {
        Some(s) => s@,
        None => match raw.include_short {
            Some(sh) => spec_shorthand_to_regex(lower_of(sh@), ".*"@),
            None => ".*"@,
        },
    }
}

/// The exclude pattern a raw change resolves to: the explicit pattern if
/// given, else the shorthand's expansion, else match-nothing.
pub open spec fn spec_exclude_pattern(raw: RawChange) -> Seq<char> {
    match raw.exclude_regex {
        Some(s) => s@,
        None => match raw.exclude_short {
            Some(sh) => spec_shorthand_to_regex(lower_of(sh@), "matchnothing^"@),
            None => "matchnothing^"@,
        },
    }
}

/// Computes the include pattern string of a raw change.
fn include_pattern(raw: &RawChange) -> (r: String)
    ensures
        r@ == spec_include_pattern(*raw),
{
    match &raw.include_regex {
        Some(s) => s.clone(),
        None => match &raw.include_short {
            Some(sh) => shorthand_to_regex(sh.as_str(), ".*"),
            None => String::from_str(".*"),
        },
    }
}

/// Computes the exclude pattern string of a raw change.
fn exclude_pattern(raw: &RawChange) -> (r: String)
    ensures
        r@ == spec_exclude_pattern(*raw),
{
    match &raw.exclude_regex {
        Some(s) => s.clone(),
        None => match &raw.exclude_short {
            Some(sh) => shorthand_to_regex(sh.as_str(), "matchnothing^"),
            None => String::from_str("matchnothing^"),
        },
    }
}

/// A timestamp accepted for a change: it parses and its year is inside
/// the supported range.
pub open spec fn accepted_dt(s: Seq<char>) -> Option<DateTime> {
    match parse_datetime_spec(s) {
        Some(dt) => if dt.valid() {
            Some(dt)
        } else {
            None
        },
        None => None,
    }
}

/// A raw change is acceptable: both timestamps parse into the supported
/// range and both resolved filter patterns compile.
pub open spec fn raw_change_ok(raw: RawChange) -> bool {
    &&& accepted_dt(raw.start@) is Some
    &&& accepted_dt(raw.finsh@) is Some
    &&& regex_compiles(spec_include_pattern(raw))
    &&& regex_compiles(spec_exclude_pattern(raw))
}

/// What a successful conversion guarantees about the produced change:
/// timestamps, stage and source are pinned exactly, and each compiled
/// filter carries exactly the resolved pattern.
pub open spec fn change_ok(raw: RawChange, c: Change) -> bool {
    &&& raw_change_ok(raw)
    &&& c.start == accepted_dt(raw.start@)->0
    &&& c.finsh == accepted_dt(raw.finsh@)->0
    &&& c.stage == raw.stage
    &&& c.source@ == raw.source@
    &&& regex_pattern(c.include_regex) == spec_include_pattern(raw)
    &&& regex_pattern(c.exclude_regex) == spec_exclude_pattern(raw)
    &&& c.wf()
}

impl RawChange {
    /// Parses and resolves a raw change.  A bad timestamp or a resolved
    /// filter pattern that is not a valid regular expression is a fatal
    /// configuration error, surfaced immediately.
    pub fn to_change(&self) -> (r: Result<Change, ConfigError>)
        ensures
            r is Ok <==> raw_change_ok(*self),
            r matches Ok(c) ==> change_ok(*self, c),
            (r matches Err(e) && e == ConfigError::BadStart) <==> accepted_dt(self.start@) is None,
            accepted_dt(self.start@) is Some ==> ((r matches Err(e) && e == ConfigError::BadFinsh)
                <==> accepted_dt(self.finsh@) is None),
            (accepted_dt(self.start@) is Some && accepted_dt(self.finsh@) is Some) ==> ((r matches
                Err(e) && e == ConfigError::BadIncludePattern) <==> !regex_compiles(
                spec_include_pattern(*self),
            )),
            (accepted_dt(self.start@) is Some && accepted_dt(self.finsh@) is Some
                && regex_compiles(spec_include_pattern(*self))) ==> ((r matches Err(e) && e
                == ConfigError::BadExcludePattern) <==> !regex_compiles(
                spec_exclude_pattern(*self),
            )),
    {
        let start = match parse_datetime(self.start.as_str()) {
            Some(dt) => {
                if dt.date.year >= 1 {
                    dt
                } else {
                    return Err(ConfigError::BadStart);
                }
            },
            None => {
                return Err(ConfigError::BadStart);
            },
        };
        let finsh = match parse_datetime(self.finsh.as_str()) {
            Some(dt) => {
                if dt.date.year >= 1 {
                    dt
                } else {
                    return Err(ConfigError::BadFinsh);
                }
            },
            None => {
                return Err(ConfigError::BadFinsh);
            },
        };
        let incl_pattern = include_pattern(self);
        let include_regex = match regex_new(incl_pattern.as_str()) {
            Some(re) => re,
            None => {
                return Err(ConfigError::BadIncludePattern);
            },
        };
        let excl_pattern = exclude_pattern(self);
        let exclude_regex = match regex_new(excl_pattern.as_str()) {
            Some(re) => re,
            None => {
                return Err(ConfigError::BadExcludePattern);
            },
        };
        Ok(
            Change {
                start,
                finsh,
                stage: self.stage,
                source: self.source.clone(),
                include_regex,
                exclude_regex,
            },
        )
    }
}

/// The curated national schedule: upcoming changes and historical ones.
pub struct ManuallyInputSchedule {
    /// Loadshedding changes, usually in the future (but not always).
    pub changes: Vec<Change>,
    /// Loadshedding changes, always in the past.
    pub historical_changes: Vec<Change>,
}

/// The curated national schedule as read from its source file.
#[derive(Clone, Debug)]
pub struct RawManuallyInputSchedule {
    /// Loadshedding changes, usually in the future (but not always).
    pub changes: Vec<RawChange>,
    /// Loadshedding changes, always in the past.
    pub historical_changes: Vec<RawChange>,
}

impl RawManuallyInputSchedule {
    /// Converts every raw change, stopping at the first fatal record:
    /// succeeds exactly when every record in both lists is acceptable.
    pub fn to_schedule(&self) -> (r: Result<ManuallyInputSchedule, ConfigError>)
        ensures
            r is Ok <==> {
                &&& forall|i: int|
                    0 <= i < self.changes@.len() ==> raw_change_ok(#[trigger] self.changes@[i])
                &&& forall|i: int|
                    0 <= i < self.historical_changes@.len() ==> raw_change_ok(
                        #[trigger] self.historical_changes@[i],
                    )
            },
            r matches Ok(s) ==> {
                &&& s.changes@.len() == self.changes@.len()
                &&& s.historical_changes@.len() == self.historical_changes@.len()
                &&& forall|i: int|
                    0 <= i < self.changes@.len() ==> change_ok(self.changes@[i], s.changes@[i])
                &&& forall|i: int|
                    0 <= i < self.historical_changes@.len() ==> change_ok(
                        self.historical_changes@[i],
                        s.historical_changes@[i],
                    )
            },
    {
        let mut changes: Vec<Change> = Vec::new();
        let mut idx: usize = 0;
        while idx < self.changes.len()
            invariant
                idx <= self.changes@.len(),
                changes@.len() == idx,
                forall|i: int| 0 <= i < idx ==> change_ok(self.changes@[i], changes@[i]),
            decreases self.changes@.len() - idx,
        {
            match self.changes[idx].to_change() {
                Ok(c) => changes.push(c),
                Err(e) => {
                    proof {
                        assert(!raw_change_ok(self.changes@[idx as int]));
                    }
                    return Err(e);
                },
            }
            idx += 1;
        }
        let mut historical_changes: Vec<Change> = Vec::new();
        let mut hdx: usize = 0;
        while hdx < self.historical_changes.len()
            invariant
                hdx <= self.historical_changes@.len(),
                historical_changes@.len() == hdx,
                forall|i: int|
                    0 <= i < hdx ==> change_ok(self.historical_changes@[i], historical_changes@[i]),
                changes@.len() == self.changes@.len(),
                forall|i: int|
                    0 <= i < self.changes@.len() ==> change_ok(self.changes@[i], changes@[i]),
            decreases self.historical_changes@.len() - hdx,
        {
            match self.historical_changes[hdx].to_change() {
                Ok(c) => historical_changes.push(c),
                Err(e) => {
                    proof {
                        assert(!raw_change_ok(self.historical_changes@[hdx as int]));
                    }
                    return Err(e);
                },
            }
            hdx += 1;
        }
        proof {
            assert forall|i: int| 0 <= i < self.changes@.len() implies raw_change_ok(
                #[trigger] self.changes@[i],
            ) by {
                assert(change_ok(self.changes@[i], changes@[i]));
            };
            assert forall|i: int| 0 <= i < self.historical_changes@.len() implies raw_change_ok(
                #[trigger] self.historical_changes@[i],
            ) by {
                assert(change_ok(self.historical_changes@[i], historical_changes@[i]));
            };
        }
        Ok(ManuallyInputSchedule { changes, historical_changes })
    }
}

} // verus!
