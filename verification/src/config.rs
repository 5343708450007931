//! Comparisons of two requests, and named collections of profiles that are validated as a
//! unit.

use crate::cli::{ExtraArgs, ExtraArgsView};
use crate::diff::{diff_text_to_terminal_inline, rendered_report, spec_line_changes, CONTEXT_LINES};
use crate::error::{DiffError, DiffErrorView, Part, Side};
use crate::headers::header_values;
use crate::json::JsonValue;
use crate::request::{MergedView, RequestProfile};
use crate::response::{ResponseExt, ResponseProfile};
use crate::text::same_text;
use vstd::prelude::*;
use vstd::std_specs::cmp::PartialEqSpec;

verus! {

/// Whether `t` is the default value of its type.
pub fn is_default<T: Default + PartialEq>(t: &T) -> (r: bool)
    ensures
        T::obeys_eq_spec() ==> exists|d: T| #[trigger]
            call_ensures(T::default, (), d) && r == t.eq_spec(&d),
{
    let d = T::default();
    *t == d
}

/// A configuration that can be checked before it is used.
pub trait ValidateConfig {
    /// What [`ValidateConfig::validate`] finds: `None` where all is well.
    spec fn fault(&self) -> Option<DiffErrorView>;

    /// Checks the configuration and reports the first fault.
    fn validate(&self) -> (r: Result<(), DiffError>)
        ensures
            match r {
                Ok(()) => self.fault() is None,
                Err(e) => self.fault() == Some(e@),
            },
    ;
}

/// Accepts a configuration that was read from text, where it was read and is valid.
pub fn load_config<T: ValidateConfig>(parsed: Result<T, String>) -> (r: Result<T, DiffError>)
    ensures
        match r {
            Ok(config) => parsed == Ok::<T, String>(config) && config.fault() is None,
            Err(e) => match parsed {
                Ok(config) => config.fault() == Some(e@),
                Err(message) => e@ == DiffErrorView::ConfigParseError(message@),
            },
        },
{
    match parsed {
        Ok(config) => match config.validate() {
            Ok(()) => Ok(config),
            Err(e) => Err(e),
        },
        Err(message) => Err(DiffError::ConfigParseError(message)),
    }
}

/// Two requests whose responses are compared, and the rules by which the responses are
/// reduced to text.
#[derive(Clone, Debug)]
pub struct DiffProfile {
    pub req1: RequestProfile,
    pub req2: RequestProfile,
    pub res: ResponseProfile,
}

/// The request of a merged configuration as mathematical values.
pub open spec fn merged_view(m: (http::HeaderMap<http::HeaderValue>, String, JsonValue)) -> MergedView {
    MergedView { headers: header_values(m.0), body: m.1@, query: m.2@ }
}

impl DiffProfile {
    /// A comparison of `req1` and `req2` under the rules `res`.
    pub fn new(req1: RequestProfile, req2: RequestProfile, res: ResponseProfile) -> (r: Self)
        ensures
            r.req1 == req1,
            r.req2 == req2,
            r.res == res,
    {
        Self { req1, req2, res }
    }

    /// The side and the part that are invalid, if one is: the first request is looked at
    /// first.
    pub open spec fn invalid_part(&self) -> Option<(Side, Part)> {
        match self.req1.invalid_part() {
            Some(part) => Some((Side::Req1, part)),
            None => match self.req2.invalid_part() {
                Some(part) => Some((Side::Req2, part)),
                None => None,
            },
        }
    }

    /// Checks both requests, the first one first.
    pub fn validate(&self) -> (r: Result<(), DiffError>)
        ensures
            match r {
                Ok(()) => self.invalid_part() is None,
                Err(e) => self.invalid_part() matches Some(found) && e@
                    == (DiffErrorView::InvalidConfig {
                    profile: None,
                    side: Some(found.0),
                    part: found.1,
                }),
            },
    {
        match self.req1.validate() {
            Ok(()) => {},
            Err(e) => {
                return Err(e.on_side(Side::Req1));
            },
        }
        match self.req2.validate() {
            Ok(()) => {},
            Err(e) => {
                return Err(e.on_side(Side::Req2));
            },
        }
        Ok(())
    }

    /// What merging `args` into both requests gives: both are checked before either is
    /// merged, and the same overrides go into both.
    pub open spec fn merged(&self, args: ExtraArgsView) -> Result<
        (MergedView, MergedView),
        DiffErrorView,
    > {
        match self.invalid_part() {
            Some(found) => Err(
                DiffErrorView::InvalidConfig { profile: None, side: Some(found.0), part: found.1 },
            ),
            None => match self.req1.merged(args) {
                Err(e) => Err(e),
                Ok(first) => match self.req2.merged(args) {
                    Err(e) => Err(e),
                    Ok(second) => Ok((first, second)),
                },
            },
        }
    }

    /// Whether the header map may refuse a header when `args` are merged into the two
    /// requests: into the first, or into the second once the first is merged.
    pub open spec fn may_run_full(&self, args: ExtraArgsView) -> bool {
        self.invalid_part() is None && (self.req1.may_run_full(args) || (self.req1.merged(args) is Ok
            && self.req2.may_run_full(args)))
    }

    /// Checks both requests and merges the same overrides into each: the two requests to
    /// send.
    ///
    /// The result is what [`DiffProfile::merged`] says. `TooManyHeaders` comes in its place
    /// only where the header map may refuse a header ([`DiffProfile::may_run_full`]).
    pub fn gen_req_configs(&self, extra_args: &ExtraArgs) -> (r: Result<
        (
            (http::HeaderMap<http::HeaderValue>, String, JsonValue),
            (http::HeaderMap<http::HeaderValue>, String, JsonValue),
        ),
        DiffError,
    >)
        ensures
            match r {
                Ok(both) => self.merged(extra_args@) == Ok::<(MergedView, MergedView), DiffErrorView>(
                    (merged_view(both.0), merged_view(both.1)),
                ),
                Err(e) => if e@ == DiffErrorView::TooManyHeaders {
                    self.may_run_full(extra_args@)
                } else {
                    self.merged(extra_args@) == Err::<(MergedView, MergedView), DiffErrorView>(e@)
                },
            },
            !self.may_run_full(extra_args@) ==> (r is Ok) == (self.merged(extra_args@) is Ok),
            self.invalid_part() matches Some(found) ==> r matches Err(e) && e@
                == (DiffErrorView::InvalidConfig {
                profile: None,
                side: Some(found.0),
                part: found.1,
            }),
    {
        match self.validate() {
            Ok(()) => {},
            Err(e) => {
                return Err(e);
            },
        }
        let first = match self.req1.gen_req_config(extra_args) {
            Ok(m) => m,
            Err(e) => {
                return Err(e);
            },
        };
        let second = match self.req2.gen_req_config(extra_args) {
            Ok(m) => m,
            Err(e) => {
                return Err(e);
            },
        };
        Ok((first, second))
    }

    /// The texts that are compared, where both responses can be reduced to one.
    pub open spec fn filtered(&self, res1: &ResponseExt, res2: &ResponseExt) -> Result<
        (Seq<char>, Seq<char>),
        DiffErrorView,
    > {
        match res1.filtered(&self.res) {
            Err(e) => Err(e),
            Ok(text1) => match res2.filtered(&self.res) {
                Err(e) => Err(e),
                Ok(text2) => Ok((text1, text2)),
            },
        }
    }

    /// Checks both requests, reduces both responses to text by the rules of the profile and
    /// writes the report of their comparison, with colors where the standard output takes
    /// them. A profile with an invalid request gets no report, but the error that names the
    /// side.
    pub fn diff(&self, res1: &ResponseExt, res2: &ResponseExt) -> (r: Result<String, DiffError>)
        ensures
            match r {
                Ok(report) => {
                    &&& self.invalid_part() is None
                    &&& self.filtered(res1, res2) matches Ok(texts) && (exists|colored: bool|
                        report@ == #[trigger] rendered_report(
                            spec_line_changes(texts.0, texts.1, CONTEXT_LINES),
                            colored,
                        )) && (texts.0 == texts.1 ==> report@.len() == 0)
                },
                Err(e) => match self.invalid_part() {
                    Some(found) => e@ == (DiffErrorView::InvalidConfig {
                        profile: None,
                        side: Some(found.0),
                        part: found.1,
                    }),
                    None => self.filtered(res1, res2) == Err::<
                        (Seq<char>, Seq<char>),
                        DiffErrorView,
                    >(e@),
                },
            },
            (r is Ok) == (self.invalid_part() is None && self.filtered(res1, res2) is Ok),
    {
        match self.validate() {
            Ok(()) => {},
            Err(e) => {
                return Err(e);
            },
        }
        let text1 = match res1.filter_text(&self.res) {
            Ok(text) => text,
            Err(e) => {
                return Err(e);
            },
        };
        let text2 = match res2.filter_text(&self.res) {
            Ok(text) => text,
            Err(e) => {
                return Err(e);
            },
        };
        Ok(diff_text_to_terminal_inline(text1.as_str(), text2.as_str()))
    }
}

/// The names of the entries of a collection.
pub open spec fn names_of<P>(entries: Seq<(String, P)>) -> Seq<Seq<char>> {
    entries.map_values(|e: (String, P)| e.0@)
}

/// Whether no name stands twice.
pub open spec fn all_distinct(names: Seq<Seq<char>>) -> bool {
    forall|i: int, j: int| 0 <= i < j < names.len() ==> names[i] != names[j]
}

/// The index of the entry called `name`, if there is one.
fn find_named<P>(entries: &Vec<(String, P)>, name: &str, end: usize) -> (r: Option<usize>)
    requires
        end <= entries.len(),
    ensures
        match r {
            Some(i) => i < end && entries@[i as int].0@ == name@,
            None => forall|j: int| 0 <= j < end ==> entries@[j].0@ != name@,
        },
{
    let mut i: usize = 0;
    while i < end
        invariant
            i <= end <= entries.len(),
            forall|j: int| 0 <= j < i ==> entries@[j].0@ != name@,
        decreases end - i,
    {
        if same_text(entries[i].0.as_str(), name) {
            return Some(i);
        }
        i += 1;
    }
    None
}

/// The index of the first entry whose name an earlier entry has, if there is one.
fn find_repeated<P>(entries: &Vec<(String, P)>) -> (r: Option<usize>)
    ensures
        match r {
            Some(j) => j < entries.len() && !all_distinct(names_of(entries@)),
            None => all_distinct(names_of(entries@)),
        },
{
    let mut j: usize = 0;
    while j < entries.len()
        invariant
            j <= entries.len(),
            forall|a: int, b: int| 0 <= a < b < j ==> entries@[a].0@ != entries@[b].0@,
        decreases entries.len() - j,
    {
        match find_named(entries, entries[j].0.as_str(), j) {
            Some(i) => {
                assert(names_of(entries@)[i as int] == names_of(entries@)[j as int]);
                return Some(j);
            },
            None => {},
        }
        j += 1;
    }
    None
}

/// The fault of the first profile that has one, with the name of the profile.
pub open spec fn first_diff_fault(entries: Seq<(String, DiffProfile)>) -> Option<DiffErrorView>
    decreases entries.len(),
{
    if entries.len() == 0 {
        None
    } else {
        match first_diff_fault(entries.drop_last()) {
            Some(e) => Some(e),
            None => match entries.last().1.invalid_part() {
                Some(found) => Some(
                    DiffErrorView::InvalidConfig {
                        profile: Some(entries.last().0@),
                        side: Some(found.0),
                        part: found.1,
                    },
                ),
                None => None,
            },
        }
    }
}

/// A fault among the first `n` profiles is the first fault of them all.
pub proof fn lemma_first_diff_fault_prefix(entries: Seq<(String, DiffProfile)>, n: int)
    requires
        0 <= n <= entries.len(),
        first_diff_fault(entries.take(n)) is Some,
    ensures
        first_diff_fault(entries) == first_diff_fault(entries.take(n)),
    decreases entries.len() - n,
{
    if n < entries.len() {
        assert(entries.take(n + 1).drop_last() =~= entries.take(n));
        lemma_first_diff_fault_prefix(entries, n + 1);
    } else {
        assert(entries.take(n) =~= entries);
    }
}

/// The fault of the first profile that has one, with the name of the profile.
pub open spec fn first_request_fault(entries: Seq<(String, RequestProfile)>) -> Option<
    DiffErrorView,
>
    decreases entries.len(),
{
    if entries.len() == 0 {
        None
    } else {
        match first_request_fault(entries.drop_last()) {
            Some(e) => Some(e),
            None => match entries.last().1.invalid_part() {
                Some(part) => Some(
                    DiffErrorView::InvalidConfig {
                        profile: Some(entries.last().0@),
                        side: None,
                        part,
                    },
                ),
                None => None,
            },
        }
    }
}

/// A fault among the first `n` profiles is the first fault of them all.
pub proof fn lemma_first_request_fault_prefix(entries: Seq<(String, RequestProfile)>, n: int)
    requires
        0 <= n <= entries.len(),
        first_request_fault(entries.take(n)) is Some,
    ensures
        first_request_fault(entries) == first_request_fault(entries.take(n)),
    decreases entries.len() - n,
{
    if n < entries.len() {
        assert(entries.take(n + 1).drop_last() =~= entries.take(n));
        lemma_first_request_fault_prefix(entries, n + 1);
    } else {
        assert(entries.take(n) =~= entries);
    }
}

/// Comparisons by name. No name stands twice.
#[derive(Debug)]
pub struct DiffConfig {
    profiles: Vec<(String, DiffProfile)>,
}

/// Requests by name. No name stands twice.
#[derive(Debug)]
pub struct RequestConfig {
    profiles: Vec<(String, RequestProfile)>,
}

impl DiffConfig {
    #[verifier::type_invariant]
    spec fn distinct(&self) -> bool {
        all_distinct(names_of(self.profiles@))
    }

    /// The profiles with their names, in their order.
    pub closed spec fn entries(&self) -> Seq<(String, DiffProfile)> {
        self.profiles@
    }

    /// A collection of the given profiles, unless a name stands twice among them.
    pub fn new(profiles: Vec<(String, DiffProfile)>) -> (r: Result<Self, DiffError>)
        ensures
            match r {
                Ok(config) => config.entries() == profiles@ && all_distinct(names_of(profiles@)),
                Err(e) => !all_distinct(names_of(profiles@)) && exists|j: int|
                    0 <= j < profiles.len() && e@ == DiffErrorView::ConfigParseError(
                        #[trigger] profiles@[j].0@,
                    ),
            },
    {
        match find_repeated(&profiles) {
            Some(j) => Err(DiffError::ConfigParseError(profiles[j].0.clone())),
            None => Ok(Self { profiles }),
        }
    }

    /// The profiles with their names, in their order.
    pub fn profiles(&self) -> (r: &Vec<(String, DiffProfile)>)
        ensures
            r@ == self.entries(),
            all_distinct(names_of(self.entries())),
    {
        proof {
            use_type_invariant(self);
        }
        &self.profiles
    }

    /// The profile called `name`, or the error that there is none.
    pub fn find_profile(&self, name: &str) -> (r: Result<&DiffProfile, DiffError>)
        ensures
            match r {
                Ok(profile) => exists|i: int|
                    0 <= i < self.entries().len() && (#[trigger] self.entries()[i]).0@ == name@
                        && self.entries()[i].1 == *profile,
                Err(e) => !names_of(self.entries()).contains(name@) && e@
                    == DiffErrorView::ProfileNotFound(name@),
            },
    {
        match self.get_profile(name) {
            Some(profile) => Ok(profile),
            None => Err(DiffError::ProfileNotFound(name.to_owned())),
        }
    }

    /// The profile called `name`.
    pub fn get_profile(&self, name: &str) -> (r: Option<&DiffProfile>)
        ensures
            all_distinct(names_of(self.entries())),
            match r {
                Some(profile) => exists|i: int|
                    0 <= i < self.entries().len() && (#[trigger] self.entries()[i]).0@ == name@
                        && self.entries()[i].1 == *profile,
                None => !names_of(self.entries()).contains(name@),
            },
    {
        proof {
            use_type_invariant(self);
        }
        match find_named(&self.profiles, name, self.profiles.len()) {
            Some(i) => {
                let profile = &self.profiles[i].1;
                assert(self.entries()[i as int].0@ == name@ && self.entries()[i as int].1
                    == *profile);
                Some(profile)
            },
            None => {
                assert forall|j: int| 0 <= j < names_of(self.profiles@).len() implies names_of(
                    self.profiles@,
                )[j] != name@ by {
                    assert(names_of(self.profiles@)[j] == self.profiles@[j].0@);
                }
                None
            },
        }
    }
}

impl ValidateConfig for DiffConfig {
    open spec fn fault(&self) -> Option<DiffErrorView> {
        first_diff_fault(self.entries())
    }

    fn validate(&self) -> (r: Result<(), DiffError>) {
        let ghost all = self.profiles@;
        let mut i: usize = 0;
        while i < self.profiles.len()
            invariant
                i <= self.profiles.len(),
                all == self.profiles@,
                first_diff_fault(all.take(i as int)) is None,
            decreases self.profiles.len() - i,
        {
            proof {
                assert(all.take(i + 1).drop_last() =~= all.take(i as int));
                if first_diff_fault(all.take(i + 1)) is Some {
                    lemma_first_diff_fault_prefix(all, i + 1);
                }
            }
            let entry = &self.profiles[i];
            match entry.1.validate() {
                Ok(()) => {},
                Err(e) => {
                    return Err(e.in_profile(entry.0.as_str()));
                },
            }
            i += 1;
        }
        assert(all.take(self.profiles.len() as int) =~= all);
        Ok(())
    }
}

impl RequestConfig {
    #[verifier::type_invariant]
    spec fn distinct(&self) -> bool {
        all_distinct(names_of(self.profiles@))
    }

    /// The profiles with their names, in their order.
    pub closed spec fn entries(&self) -> Seq<(String, RequestProfile)> {
        self.profiles@
    }

    /// A collection of the given profiles, unless a name stands twice among them.
    pub fn new(profiles: Vec<(String, RequestProfile)>) -> (r: Result<Self, DiffError>)
        ensures
            match r {
                Ok(config) => config.entries() == profiles@ && all_distinct(names_of(profiles@)),
                Err(e) => !all_distinct(names_of(profiles@)) && exists|j: int|
                    0 <= j < profiles.len() && e@ == DiffErrorView::ConfigParseError(
                        #[trigger] profiles@[j].0@,
                    ),
            },
    {
        match find_repeated(&profiles) {
            Some(j) => Err(DiffError::ConfigParseError(profiles[j].0.clone())),
            None => Ok(Self { profiles }),
        }
    }

    /// The profiles with their names, in their order.
    pub fn profiles(&self) -> (r: &Vec<(String, RequestProfile)>)
        ensures
            r@ == self.entries(),
            all_distinct(names_of(self.entries())),
    {
        proof {
            use_type_invariant(self);
        }
        &self.profiles
    }

    /// The profile called `name`, or the error that there is none.
    pub fn find_profile(&self, name: &str) -> (r: Result<&RequestProfile, DiffError>)
        ensures
            match r {
                Ok(profile) => exists|i: int|
                    0 <= i < self.entries().len() && (#[trigger] self.entries()[i]).0@ == name@
                        && self.entries()[i].1 == *profile,
                Err(e) => !names_of(self.entries()).contains(name@) && e@
                    == DiffErrorView::ProfileNotFound(name@),
            },
    {
        match self.get_profile(name) {
            Some(profile) => Ok(profile),
            None => Err(DiffError::ProfileNotFound(name.to_owned())),
        }
    }

    /// The profile called `name`.
    pub fn get_profile(&self, name: &str) -> (r: Option<&RequestProfile>)
        ensures
            all_distinct(names_of(self.entries())),
            match r {
                Some(profile) => exists|i: int|
                    0 <= i < self.entries().len() && (#[trigger] self.entries()[i]).0@ == name@
                        && self.entries()[i].1 == *profile,
                None => !names_of(self.entries()).contains(name@),
            },
    {
        proof {
            use_type_invariant(self);
        }
        match find_named(&self.profiles, name, self.profiles.len()) {
            Some(i) => {
                let profile = &self.profiles[i].1;
                assert(self.entries()[i as int].0@ == name@ && self.entries()[i as int].1
                    == *profile);
                Some(profile)
            },
            None => {
                assert forall|j: int| 0 <= j < names_of(self.profiles@).len() implies names_of(
                    self.profiles@,
                )[j] != name@ by {
                    assert(names_of(self.profiles@)[j] == self.profiles@[j].0@);
                }
                None
            },
        }
    }
}

impl ValidateConfig for RequestConfig {
    open spec fn fault(&self) -> Option<DiffErrorView> {
        first_request_fault(self.entries())
    }

    fn validate(&self) -> (r: Result<(), DiffError>) {
        let ghost all = self.profiles@;
        let mut i: usize = 0;
        while i < self.profiles.len()
            invariant
                i <= self.profiles.len(),
                all == self.profiles@,
                first_request_fault(all.take(i as int)) is None,
            decreases self.profiles.len() - i,
        {
            proof {
                assert(all.take(i + 1).drop_last() =~= all.take(i as int));
                if first_request_fault(all.take(i + 1)) is Some {
                    lemma_first_request_fault_prefix(all, i + 1);
                }
            }
            let entry = &self.profiles[i];
            match entry.1.validate() {
                Ok(()) => {},
                Err(e) => {
                    return Err(e.in_profile(entry.0.as_str()));
                },
            }
            i += 1;
        }
        assert(all.take(self.profiles.len() as int) =~= all);
        Ok(())
    }
}

} // verus!
