//! Which entries a sync, search or prune keeps.

use vstd::prelude::*;
use crate::clock::{parse_weekday, today_ok, today_utc, weekday_number, Today};
use crate::entry::EntryOS;
use crate::errors::FilterErrors;
use crate::text::{
    chars_of, contains_chars, has_prefix, has_substring, parse_u16, parse_u16_spec, remove_chars,
    split_chars, split_spec, starts_with, string_from, without,
};

verus! {

/// The predicates that entries are held to.
#[derive(Debug, Clone)]
pub struct Filter {
    /// Keep only entries from one of these platforms.
    pub oses: Option<Vec<EntryOS>>,
    /// Keep only days strictly before this `[year, month, day]`.
    pub before: Option<[u16; 3]>,
    /// Keep only days strictly after this `[year, month, day]`.
    pub after: Option<[u16; 3]>,
    /// Keep only these days.
    pub when: Option<Vec<[u16; 3]>>,
    /// Keep only entries whose user id contains this text.
    pub user: Option<String>,
    /// Keep only entries with a downloaded file matching this pattern.
    pub term: Option<String>,
    /// Combine the predicates with OR instead of AND.
    pub any: bool,
    /// The outcome given when a predicate cannot be decided.
    pub reject_unsure: bool,
}

/// `a` comes strictly before `b`, comparing year, then month, then day.
pub open spec fn lex_less(a: Seq<u16>, b: Seq<u16>) -> bool {
    ||| a[0] < b[0]
    ||| a[0] == b[0] && a[1] < b[1]
    ||| a[0] == b[0] && a[1] == b[1] && a[2] < b[2]
}

/// The `[year, month, day]` that a day name such as `2021-07-21` spells:
/// slashes are ignored, the first three `-`-separated pieces must each be a
/// `u16`, and any further pieces are ignored.
pub open spec fn date_of(input: Seq<char>) -> Option<Seq<u16>> {
    let parts = split_spec(without(input, seq!['/']), seq!['-']);
    if parts.len() >= 3 && parse_u16_spec(parts[0]) is Some && parse_u16_spec(parts[1]) is Some
        && parse_u16_spec(parts[2]) is Some {
        Some(
            seq![
                parse_u16_spec(parts[0])->0,
                parse_u16_spec(parts[1])->0,
                parse_u16_spec(parts[2])->0,
            ],
        )
    } else {
        None
    }
}

/// How many days back a relative day name points from `today`: `today…`
/// is 0, `yesterday…` is 1, and a weekday name is its last occurrence
/// before today (a week back for today's own weekday).
pub open spec fn days_ago_spec(name: Seq<char>, today: Today) -> Option<u32> {
    if starts_with(name, "today"@) {
        Some(0)
    } else if starts_with(name, "yesterday"@) {
        Some(1)
    } else {
        match weekday_number(name) {
            Some(w) => if today.weekday == w {
                Some(7)
            } else {
                Some(((today.weekday + 7 - w) % 7) as u32)
            },
            None => None,
        }
    }
}

/// The date that a day name means on `today`: an explicit date as is, else
/// a relative name counted back within the current month; `None` when the
/// name means nothing, or points before the month's first day, or the year
/// does not fit a `u16`, or the current day is unknown.
pub open spec fn single_date_spec(name: Seq<char>, today: Option<Today>) -> Option<Seq<u16>> {
    match date_of(name) {
        Some(d) => Some(d),
        None => match today {
            None => None,
            Some(t) => match days_ago_spec(name, t) {
                None => None,
                Some(ago) => if ago < t.day && 0 <= t.year <= u16::MAX {
                    Some(seq![t.year as u16, t.month as u16, (t.day - ago) as u16])
                } else {
                    None
                },
            },
        },
    }
}

/// The dates of the comma-separated names, skipping those that mean none.
pub open spec fn dates_in(names: Seq<Seq<char>>, today: Option<Today>) -> Seq<Seq<u16>>
    decreases names.len(),
{
    if names.len() == 0 {
        Seq::empty()
    } else {
        let prev = dates_in(names.drop_last(), today);
        match single_date_spec(names.last(), today) {
            Some(d) => prev.push(d),
            None => prev,
        }
    }
}

pub open spec fn opt_date_view(d: Option<[u16; 3]>) -> Option<Seq<u16>> {
    match d {
        Some(x) => Some(x@),
        None => None,
    }
}

pub open spec fn dates_view(v: Seq<[u16; 3]>) -> Seq<Seq<u16>> {
    v.map_values(|d: [u16; 3]| d@)
}

/// What has been learned about an entry while judging it. `None` means
/// not asked yet; an inner `None` means the lookup could not tell.
#[derive(Debug, Clone)]
pub struct EntryFacts {
    /// The entry's platform.
    pub os: Option<Option<EntryOS>>,
    /// The entry's user id.
    pub user: Option<Option<String>>,
    /// Whether the entry's files are on disk.
    pub downloaded: Option<bool>,
    /// Whether a downloaded file matches the term, or why that is unknown.
    pub term_matches: Option<Result<bool, FilterErrors>>,
}

impl EntryFacts {
    /// Nothing learned yet.
    pub fn new() -> (r: EntryFacts)
        ensures
            r.os is None,
            r.user is None,
            r.downloaded is None,
            r.term_matches is None,
    {
        EntryFacts { os: None, user: None, downloaded: None, term_matches: None }
    }
}

/// A lookup that judging an entry needs next.
#[derive(PartialEq, Eq, Structural, Clone, Copy, Debug)]
pub enum EntryQuery {
    /// Resolve the entry's platform.
    Os,
    /// Resolve the entry's user id from its detail file.
    User,
    /// Tell whether the entry's files are on disk.
    Downloaded,
    /// Tell whether one of the entry's downloaded files matches the term.
    TermMatches,
}

/// The next step in judging an entry.
#[derive(Debug, Clone, Copy, PartialEq, Eq)]
pub enum EntryStep {
    /// The outcome.
    Decided(Result<bool, FilterErrors>),
    /// A lookup is needed first.
    Ask(EntryQuery),
}

impl Filter {
    /// Judging an entry: the date predicates, then the platform, then the
    /// user, then the content term. Each configured predicate whose value
    /// equals `any` ends the judgement with `any` (under AND a failure
    /// rejects, under OR a success accepts); a lookup that could not tell
    /// gives the unsure answer; the term's result is the outcome itself;
    /// an entry that nothing stopped passes.
    pub open spec fn entry_step_spec(self, day: Seq<char>, facts: EntryFacts) -> EntryStep {
        if self.has_date_bounds() && self.day_ok_spec(day) == self.any {
            EntryStep::Decided(Ok(self.any))
        } else if self.oses is Some && facts.os is None {
            EntryStep::Ask(EntryQuery::Os)
        } else if self.oses is Some && facts.os->0 is None {
            EntryStep::Decided(Ok(self.reject_unsure))
        } else if self.oses is Some && self.os_ok_spec(facts.os->0->0) == self.any {
            EntryStep::Decided(Ok(self.any))
        } else if self.user is Some && facts.user is None {
            EntryStep::Ask(EntryQuery::User)
        } else if self.user is Some && facts.user->0 is None {
            EntryStep::Decided(Ok(self.reject_unsure))
        } else if self.user is Some && self.user_ok_spec(facts.user->0->0@) == self.any {
            EntryStep::Decided(Ok(self.any))
        } else if self.term is Some && facts.downloaded is None {
            EntryStep::Ask(EntryQuery::Downloaded)
        } else if self.term is Some && facts.downloaded == Some(false) {
            EntryStep::Decided(Err(FilterErrors::TermFilterBeforeDownloading))
        } else if self.term is Some && facts.term_matches is None {
            EntryStep::Ask(EntryQuery::TermMatches)
        } else if self.term is Some {
            EntryStep::Decided(facts.term_matches->0)
        } else {
            EntryStep::Decided(Ok(true))
        }
    }

    /// The next step in judging the entry of day `day`, given what has been
    /// learned of it so far.
    pub fn entry_step(&self, day: &str, facts: &EntryFacts) -> (r: EntryStep)
        ensures
            r == self.entry_step_spec(day@, *facts),
    {
        let dated = self.before.is_some() || self.after.is_some() || self.when.is_some();
        if dated && self.day_ok(day) == self.any {
            return EntryStep::Decided(Ok(self.any));
        }
        if self.oses.is_some() {
            match &facts.os {
                None => return EntryStep::Ask(EntryQuery::Os),
                Some(None) => return EntryStep::Decided(Ok(self.reject_unsure)),
                Some(Some(os)) => {
                    if self.os_ok(os) == self.any {
                        return EntryStep::Decided(Ok(self.any));
                    }
                },
            }
        }
        if self.user.is_some() {
            match &facts.user {
                None => return EntryStep::Ask(EntryQuery::User),
                Some(None) => return EntryStep::Decided(Ok(self.reject_unsure)),
                Some(Some(user)) => {
                    if self.user_ok(user.as_str()) == self.any {
                        return EntryStep::Decided(Ok(self.any));
                    }
                },
            }
        }
        if self.term.is_some() {
            match facts.downloaded {
                None => return EntryStep::Ask(EntryQuery::Downloaded),
                Some(false) => return EntryStep::Decided(Err(FilterErrors::TermFilterBeforeDownloading)),
                Some(true) => {},
            }
            return match &facts.term_matches {
                None => EntryStep::Ask(EntryQuery::TermMatches),
                Some(Ok(b)) => EntryStep::Decided(Ok(*b)),
                Some(Err(e)) => EntryStep::Decided(Err(*e)),
            };
        }
        EntryStep::Decided(Ok(true))
    }

    pub open spec fn before_ok_spec(self, date: Seq<u16>) -> bool {
        match self.before {
            None => true,
            Some(b) => lex_less(date, b@),
        }
    }

    pub open spec fn after_ok_spec(self, date: Seq<u16>) -> bool {
        match self.after {
            None => true,
            Some(a) => lex_less(a@, date),
        }
    }

    pub open spec fn when_ok_spec(self, date: Seq<u16>) -> bool {
        match self.when {
            None => true,
            Some(w) => dates_view(w@).contains(date),
        }
    }

    pub open spec fn has_date_bounds(self) -> bool {
        self.before is Some || self.after is Some || self.when is Some
    }

    /// The three date predicates on a parsed date, ORed or ANDed.
    pub open spec fn date_ok_spec(self, date: Seq<u16>) -> bool {
        if self.any {
            self.before_ok_spec(date) || self.after_ok_spec(date) || self.when_ok_spec(date)
        } else {
            self.before_ok_spec(date) && self.after_ok_spec(date) && self.when_ok_spec(date)
        }
    }

    /// Whether a day name passes the date predicates; a name that is no
    /// date gets the unsure answer.
    pub open spec fn day_ok_spec(self, day: Seq<char>) -> bool {
        if !self.has_date_bounds() {
            true
        } else {
            match date_of(day) {
                None => self.reject_unsure,
                Some(d) => self.date_ok_spec(d),
            }
        }
    }

    pub open spec fn os_ok_spec(self, os: EntryOS) -> bool {
        match self.oses {
            None => true,
            Some(v) => v@.contains(os),
        }
    }

    pub open spec fn user_ok_spec(self, user: Seq<char>) -> bool {
        match self.user {
            None => true,
            Some(u) => has_substring(user, u@),
        }
    }

    /// Parses a day name such as `2021-07-21` into `[year, month, day]`.
    pub fn date_array(input: &str) -> (r: Option<[u16; 3]>)
        ensures
            match r {
                Some(d) => date_of(input@) == Some(d@),
                None => date_of(input@) is None,
            },
    {
        let chars = chars_of(input);
        let slash = vec!['/'];
        let dash = vec!['-'];
        proof {
            assert(slash@ =~= seq!['/']);
            assert(dash@ =~= seq!['-']);
        }
        let fixed = remove_chars(&chars, &slash);
        let parts = split_chars(&fixed, &dash);
        let ghost pv = parts@.map_values(|p: Vec<char>| p@);
        if parts.len() < 3 {
            return None;
        }
        proof {
            assert(pv[0] == parts@[0]@);
            assert(pv[1] == parts@[1]@);
            assert(pv[2] == parts@[2]@);
        }
        let first = match parse_u16(&parts[0]) {
            Some(v) => v,
            None => return None,
        };
        let second = match parse_u16(&parts[1]) {
            Some(v) => v,
            None => return None,
        };
        let third = match parse_u16(&parts[2]) {
            Some(v) => v,
            None => return None,
        };
        let d = [first, second, third];
        proof {
            assert(d@ =~= seq![first, second, third]);
        }
        Some(d)
    }

    /// The date that a day name such as `2021-07-21`, `today`, `yesterday`
    /// or `friday` means on the day `today`.
    pub fn single_date_on(day: &str, today: Option<Today>) -> (r: Option<[u16; 3]>)
        requires
            today_ok(today),
        ensures
            opt_date_view(r) == single_date_spec(day@, today),
    {
        match Self::date_array(day) {
            Some(d) => return Some(d),
            None => {},
        }
        let today = match today {
            Some(t) => t,
            None => return None,
        };
        let name = chars_of(day);
        let today_word = chars_of("today");
        let yesterday_word = chars_of("yesterday");
        let ago: u32 = if has_prefix(&name, &today_word) {
            0
        } else if has_prefix(&name, &yesterday_word) {
            1
        } else {
            match parse_weekday(day) {
                Some(w) => {
                    if today.weekday == w {
                        7
                    } else {
                        (today.weekday + 7 - w) % 7
                    }
                },
                None => return None,
            }
        };
        if ago < today.day && 0 <= today.year && today.year <= 65535 {
            let d = [today.year as u16, today.month as u16, (today.day - ago) as u16];
            proof {
                assert(d@ =~= seq![today.year as u16, today.month as u16, (today.day - ago) as u16]);
            }
            Some(d)
        } else {
            None
        }
    }

    /// The dates of comma-separated day names on the day `today`, skipping
    /// names that mean none.
    pub fn dates_on(whens: &str, today: Option<Today>) -> (r: Vec<[u16; 3]>)
        requires
            today_ok(today),
        ensures
            dates_view(r@) == dates_in(split_spec(whens@, seq![',']), today),
    {
        let comma = vec![','];
        proof {
            assert(comma@ =~= seq![',']);
        }
        let parts = split_chars(&chars_of(whens), &comma);
        let ghost pv = parts@.map_values(|p: Vec<char>| p@);
        let mut out: Vec<[u16; 3]> = Vec::new();
        let mut i: usize = 0;
        while i < parts.len()
            invariant
                i <= parts@.len(),
                today_ok(today),
                pv == parts@.map_values(|p: Vec<char>| p@),
                dates_view(out@) == dates_in(pv.take(i as int), today),
            decreases parts@.len() - i,
        {
            proof {
                assert(pv.take(i + 1).drop_last() =~= pv.take(i as int));
                assert(pv.take(i + 1).last() == parts@[i as int]@);
            }
            let name = string_from(&parts[i]);
            let ghost before = dates_view(out@);
            match Self::single_date_on(name.as_str(), today) {
                Some(d) => {
                    out.push(d);
                    proof {
                        assert(dates_view(out@) =~= before.push(d@));
                    }
                },
                None => {},
            }
            i = i + 1;
        }
        proof {
            assert(pv.take(pv.len() as int) =~= pv);
        }
        out
    }

    /// The date that a day name means today (UTC); relative names mean none
    /// when the clock cannot tell the day.
    pub fn string_to_single_date(day: &str) -> (r: Option<[u16; 3]>)
        ensures
            exists|t: Option<Today>| today_ok(t) && opt_date_view(r) == single_date_spec(day@, t),
    {
        let today = today_utc();
        Self::single_date_on(day, today)
    }

    /// The dates of comma-separated day names today (UTC); relative names
    /// mean none when the clock cannot tell the day.
    pub fn string_to_dates(whens: &str) -> (r: Vec<[u16; 3]>)
        ensures
            exists|t: Option<Today>|
                today_ok(t) && dates_view(r@) == dates_in(split_spec(whens@, seq![',']), t),
    {
        let today = today_utc();
        Self::dates_on(whens, today)
    }

    /// Whether `date` is strictly before the `before` bound (true when unset).
    pub fn before_ok(&self, date: [u16; 3]) -> (r: bool)
        ensures
            r == self.before_ok_spec(date@),
    {
        match self.before {
            None => true,
            Some(b) => date_less(date, b),
        }
    }

    /// Whether `date` is strictly after the `after` bound (true when unset).
    pub fn after_ok(&self, date: [u16; 3]) -> (r: bool)
        ensures
            r == self.after_ok_spec(date@),
    {
        match self.after {
            None => true,
            Some(a) => date_less(a, date),
        }
    }

    /// Whether `date` is one of the `when` days (true when unset).
    pub fn when_ok(&self, date: [u16; 3]) -> (r: bool)
        ensures
            r == self.when_ok_spec(date@),
    {
        match &self.when {
            None => true,
            Some(w) => {
                let mut i: usize = 0;
                while i < w.len()
                    invariant
                        i <= w@.len(),
                        self.when == Some(*w),
                        forall|j: int| 0 <= j < i ==> w@[j]@ != date@,
                    decreases w@.len() - i,
                {
                    if date_eq(w[i], date) {
                        proof {
                            assert(dates_view(w@)[i as int] == date@);
                        }
                        return true;
                    }
                    i = i + 1;
                }
                proof {
                    assert forall|j: int| 0 <= j < dates_view(w@).len() implies dates_view(
                        w@,
                    )[j] != date@ by {
                        assert(w@[j]@ != date@);
                    }
                }
                false
            },
        }
    }

    /// Whether a day name passes the date predicates.
    pub fn day_ok(&self, date: &str) -> (r: bool)
        ensures
            r == self.day_ok_spec(date@),
    {
        if self.before.is_none() && self.after.is_none() && self.when.is_none() {
            return true;
        }
        let d = match Self::date_array(date) {
            Some(d) => d,
            None => return self.reject_unsure,
        };
        if self.any {
            self.before_ok(d) || self.after_ok(d) || self.when_ok(d)
        } else {
            self.before_ok(d) && self.after_ok(d) && self.when_ok(d)
        }
    }

    /// Whether `os` is one of the wanted platforms (true when unset).
    pub fn os_ok(&self, os: &EntryOS) -> (r: bool)
        ensures
            r == self.os_ok_spec(*os),
    {
        match &self.oses {
            None => true,
            Some(v) => {
                let mut i: usize = 0;
                while i < v.len()
                    invariant
                        i <= v@.len(),
                        self.oses == Some(*v),
                        forall|j: int| 0 <= j < i ==> v@[j] != *os,
                    decreases v@.len() - i,
                {
                    if v[i] == *os {
                        return true;
                    }
                    i = i + 1;
                }
                false
            },
        }
    }

    /// Whether `user` contains the wanted user text (true when unset).
    pub fn user_ok(&self, user: &str) -> (r: bool)
        ensures
            r == self.user_ok_spec(user@),
    {
        match &self.user {
            None => true,
            Some(u) => {
                let hay = chars_of(user);
                let needle = chars_of(u.as_str());
                contains_chars(&hay, &needle)
            },
        }
    }
}

/// The facts of an entry whose platform and user id are resolved.
pub open spec fn resolved_facts(os: EntryOS, user: String) -> EntryFacts {
    EntryFacts { os: Some(Some(os)), user: Some(Some(user)), downloaded: None, term_matches: None }
}

/// Under AND, with the platform and user id resolved and no content term,
/// an entry passes exactly when every configured predicate holds, the
/// first failing one rejecting it.
pub proof fn lemma_and_needs_every_predicate(f: Filter, day: Seq<char>, os: EntryOS, user: String)
    requires
        !f.any,
        f.term is None,
    ensures
        f.entry_step_spec(day, resolved_facts(os, user)) == EntryStep::Decided(
            Ok((f.has_date_bounds() ==> f.day_ok_spec(day)) && f.os_ok_spec(os) && f.user_ok_spec(
                user@,
            )),
        ),
{
}

/// Under OR, with the platform and user id resolved and no content term,
/// no entry is rejected: a holding predicate accepts at once, and an entry
/// that none accepted passes all the same.
pub proof fn lemma_or_never_rejects(f: Filter, day: Seq<char>, os: EntryOS, user: String)
    requires
        f.any,
        f.term is None,
    ensures
        f.entry_step_spec(day, resolved_facts(os, user)) == EntryStep::Decided(Ok(true)),
{
}

/// An unresolved platform gives the unsure answer, unless the date
/// predicates already decided.
pub proof fn lemma_unknown_os_is_unsure(f: Filter, day: Seq<char>, facts: EntryFacts)
    requires
        f.oses is Some,
        facts.os == Some(None::<EntryOS>),
        !(f.has_date_bounds() && f.day_ok_spec(day) == f.any),
    ensures
        f.entry_step_spec(day, facts) == EntryStep::Decided(Ok(f.reject_unsure)),
{
}

/// A day is never strictly before nor strictly after itself: a bound equal
/// to the date rejects it.
pub proof fn lemma_bound_excludes_itself(f: Filter, a: [u16; 3])
    ensures
        f.before == Some(a) ==> !f.before_ok_spec(a@),
        f.after == Some(a) ==> !f.after_ok_spec(a@),
{
}

/// The year alone decides the `before` bound when it differs from the
/// bound's year: an earlier year passes and a later year fails, whatever
/// the month and day.
pub proof fn lemma_year_decides_before(f: Filter, b: [u16; 3], date: [u16; 3])
    requires
        f.before == Some(b),
    ensures
        date[0] < b[0] ==> f.before_ok_spec(date@),
        date[0] > b[0] ==> !f.before_ok_spec(date@),
{
}

/// The same for the `after` bound: a later year passes and an earlier year
/// fails, whatever the month and day.
pub proof fn lemma_year_decides_after(f: Filter, a: [u16; 3], date: [u16; 3])
    requires
        f.after == Some(a),
    ensures
        date[0] > a[0] ==> f.after_ok_spec(date@),
        date[0] < a[0] ==> !f.after_ok_spec(date@),
{
}

/// Whether two dates are the same day.
fn date_eq(a: [u16; 3], b: [u16; 3]) -> (r: bool)
    ensures
        r == (a@ == b@),
{
    let r = a[0] == b[0] && a[1] == b[1] && a[2] == b[2];
    proof {
        if r {
            assert(a@ =~= b@);
        }
    }
    r
}

/// Whether `a` is strictly before `b`, component by component.
fn date_less(a: [u16; 3], b: [u16; 3]) -> (r: bool)
    ensures
        r == lex_less(a@, b@),
{
    if a[0] != b[0] {
        a[0] < b[0]
    } else if a[1] != b[1] {
        a[1] < b[1]
    } else {
        a[2] < b[2]
    }
}

} // verus!
