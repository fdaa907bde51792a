//! The current day, as plain values, and weekday names.

use vstd::prelude::*;
use chrono::Datelike;

verus! {

/// A calendar day: year, month (1 to 12), day of the month (1 to 31), and
/// weekday counted from Sunday (0 to 6).
#[derive(PartialEq, Eq, Structural, Clone, Copy, Debug)]
pub struct Today {
    pub year: i32,
    pub month: u32,
    pub day: u32,
    pub weekday: u32,
}

impl Today {
    pub open spec fn wf(self) -> bool {
        1 <= self.month <= 12 && 1 <= self.day <= 31 && self.weekday < 7
    }
}

/// A known day is a valid one.
pub open spec fn today_ok(today: Option<Today>) -> bool {
    today matches Some(t) ==> t.wf()
}

/// Relies on `SystemTime::now`, `chrono::DateTime::from_timestamp` and the
/// `Datelike` accessors: the current UTC day, with a month from 1 to 12, a
/// day from 1 to 31 and a weekday from Sunday of 0 to 6; `None` when the
/// clock reads before 1970 or beyond what chrono represents.
#[verifier::external_body]
pub(crate) fn today_utc() -> (r: Option<Today>)
    ensures
        today_ok(r),
{
    let since = std::time::SystemTime::now().duration_since(std::time::UNIX_EPOCH).ok()?;
    let secs = i64::try_from(since.as_secs()).ok()?;
    let now = chrono::DateTime::<chrono::Utc>::from_timestamp(secs, since.subsec_nanos())?;
    Some(Today {
        year: now.year(),
        month: now.month(),
        day: now.day(),
        weekday: now.weekday().num_days_from_sunday(),
    })
}

/// `s` spells the lower-case ASCII word `name` in any letter case.
pub open spec fn spells(s: Seq<char>, name: Seq<char>) -> bool {
    s.len() == name.len() && forall|i: int|
        0 <= i < s.len() ==> s[i] == name[i] || (s[i] as u32) + 32 == (name[i] as u32)
}

/// A weekday name, short or long, in any ASCII case: its number of days
/// from Sunday.
pub open spec fn weekday_number(s: Seq<char>) -> Option<u32> {
    if spells(s, "sun"@) || spells(s, "sunday"@) {
        Some(0)
    } else if spells(s, "mon"@) || spells(s, "monday"@) {
        Some(1)
    } else if spells(s, "tue"@) || spells(s, "tuesday"@) {
        Some(2)
    } else if spells(s, "wed"@) || spells(s, "wednesday"@) {
        Some(3)
    } else if spells(s, "thu"@) || spells(s, "thursday"@) {
        Some(4)
    } else if spells(s, "fri"@) || spells(s, "friday"@) {
        Some(5)
    } else if spells(s, "sat"@) || spells(s, "saturday"@) {
        Some(6)
    } else {
        None
    }
}

/// Relies on chrono's `FromStr for Weekday`: it accepts exactly a
/// three-letter or full English weekday name in any ASCII case.
#[verifier::external_body]
pub(crate) fn parse_weekday(s: &str) -> (r: Option<u32>)
    ensures
        r == weekday_number(s@),
{
    s.parse::<chrono::Weekday>().ok().map(|w| w.num_days_from_sunday())
}

} // verus!
