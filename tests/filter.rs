use rager::clock::Today;
use rager::entry::EntryOS;
use rager::errors::FilterErrors;
use rager::filter::{EntryFacts, EntryQuery, EntryStep, Filter};

fn empty_filter() -> Filter {
    Filter {
        oses: None,
        before: None,
        after: None,
        when: None,
        user: None,
        term: None,
        any: false,
        reject_unsure: false,
    }
}

#[test]
fn equal_date_is_neither_before_nor_after() {
    let a = [2021, 7, 21];
    let f = Filter { before: Some(a), after: Some(a), ..empty_filter() };
    assert!(!f.before_ok(a));
    assert!(!f.after_ok(a));
}

#[test]
fn before_bound_decided_by_year() {
    let f = Filter { before: Some([2021, 1, 1]), ..empty_filter() };
    assert!(f.before_ok([2020, 12, 31]));
    assert!(f.before_ok([2020, 1, 1]));
    assert!(f.before_ok([2020, 99, 99]));
    assert!(!f.before_ok([2022, 1, 1]));
    assert!(!f.before_ok([2022, 0, 0]));
    assert!(!f.before_ok([2021, 1, 1]));
    assert!(f.before_ok([2021, 0, 5]));
}

#[test]
fn after_bound_is_strict() {
    let f = Filter { after: Some([2024, 1, 1]), ..empty_filter() };
    assert!(f.after_ok([2024, 1, 2]));
    assert!(!f.after_ok([2024, 1, 1]));
    assert!(!f.after_ok([2023, 12, 31]));
    assert!(f.after_ok([2025, 1, 1]));
}

#[test]
fn unset_bounds_accept_everything() {
    let f = empty_filter();
    assert!(f.before_ok([1, 1, 1]));
    assert!(f.after_ok([1, 1, 1]));
    assert!(f.when_ok([1, 1, 1]));
    assert!(f.day_ok("not a date"));
    assert!(f.os_ok(&EntryOS::Android));
    assert!(f.user_ok("anyone"));
}

#[test]
fn when_set_matches_listed_days_only() {
    let f = Filter { when: Some(vec![[2021, 7, 9], [2021, 7, 21]]), ..empty_filter() };
    assert!(f.when_ok([2021, 7, 21]));
    assert!(!f.when_ok([2021, 7, 22]));
    assert!(f.day_ok("2021-07-09"));
    assert!(!f.day_ok("2021-07-10"));
}

#[test]
fn date_array_parses_day_names() {
    assert_eq!(Filter::date_array("2021-07-21"), Some([2021, 7, 21]));
    assert_eq!(Filter::date_array("2021-07-21/"), Some([2021, 7, 21]));
    assert_eq!(Filter::date_array("2021-07-21-extra"), Some([2021, 7, 21]));
    assert_eq!(Filter::date_array("2021-13-40"), Some([2021, 13, 40]));
    assert_eq!(Filter::date_array("+5-1-1"), Some([5, 1, 1]));
    assert_eq!(Filter::date_array("2021-07"), None);
    assert_eq!(Filter::date_array("70000-1-1"), None);
    assert_eq!(Filter::date_array("2021-0x-01"), None);
    assert_eq!(Filter::date_array(""), None);
    assert_eq!(Filter::date_array("2021--01"), None);
}

#[test]
fn day_ok_unparseable_gives_unsure_outcome() {
    let f = Filter { after: Some([2024, 1, 1]), reject_unsure: true, ..empty_filter() };
    assert!(f.day_ok("latest"));
    let g = Filter { reject_unsure: false, ..f };
    assert!(!g.day_ok("latest"));
}

#[test]
fn day_ok_combines_with_and_or_or() {
    let and = Filter { before: Some([2021, 1, 1]), after: Some([2021, 6, 1]), ..empty_filter() };
    assert!(!and.day_ok("2020-12-01"));
    let or = Filter { any: true, ..and.clone() };
    assert!(or.day_ok("2020-12-01"));
    // An unset `when` holds, so under OR every parseable day passes.
    assert!(or.day_ok("2021-03-01"));
    let or_when = Filter { when: Some(vec![[2020, 1, 1]]), ..or };
    assert!(!or_when.day_ok("2021-03-01"));
    assert!(or_when.day_ok("2021-07-01"));
}

#[test]
fn user_filter_is_substring_match() {
    let f = Filter { user: Some("alice".to_string()), ..empty_filter() };
    assert!(f.user_ok("@alice:example.org"));
    assert!(f.user_ok("alice"));
    assert!(!f.user_ok("alic"));
    assert!(!f.user_ok("bob"));
}

#[test]
fn os_filter_checks_membership() {
    let f = Filter { oses: Some(vec![EntryOS::iOS, EntryOS::Desktop]), ..empty_filter() };
    assert!(f.os_ok(&EntryOS::iOS));
    assert!(f.os_ok(&EntryOS::Desktop));
    assert!(!f.os_ok(&EntryOS::Android));
}

fn ios_and_alice(any: bool) -> Filter {
    Filter {
        oses: Some(vec![EntryOS::iOS]),
        user: Some("alice".to_string()),
        any,
        ..empty_filter()
    }
}

#[test]
fn and_filter_rejects_on_os_even_if_user_matches() {
    let f = ios_and_alice(false);
    let mut facts = EntryFacts::new();
    assert_eq!(f.entry_step("2024-01-01", &facts), EntryStep::Ask(EntryQuery::Os));
    facts.os = Some(Some(EntryOS::Android));
    facts.user = Some(Some("alice".to_string()));
    assert_eq!(f.entry_step("2024-01-01", &facts), EntryStep::Decided(Ok(false)));
}

#[test]
fn or_filter_accepts_on_user_alone() {
    let f = ios_and_alice(true);
    let mut facts = EntryFacts::new();
    assert_eq!(f.entry_step("2024-01-01", &facts), EntryStep::Ask(EntryQuery::Os));
    facts.os = Some(Some(EntryOS::Android));
    assert_eq!(f.entry_step("2024-01-01", &facts), EntryStep::Ask(EntryQuery::User));
    facts.user = Some(Some("alice".to_string()));
    assert_eq!(f.entry_step("2024-01-01", &facts), EntryStep::Decided(Ok(true)));
}

#[test]
fn unreachable_details_give_unsure_outcome() {
    let f = Filter { oses: Some(vec![EntryOS::iOS]), reject_unsure: true, ..empty_filter() };
    let facts = EntryFacts { os: Some(None), ..EntryFacts::new() };
    assert_eq!(f.entry_step("2024-01-01", &facts), EntryStep::Decided(Ok(true)));
    let g = Filter { reject_unsure: false, ..f };
    assert_eq!(g.entry_step("2024-01-01", &facts), EntryStep::Decided(Ok(false)));
}

#[test]
fn unresolved_user_gives_unsure_outcome() {
    let f = Filter { user: Some("alice".to_string()), reject_unsure: true, ..empty_filter() };
    let facts = EntryFacts { user: Some(None), ..EntryFacts::new() };
    assert_eq!(f.entry_step("2024-01-01", &facts), EntryStep::Decided(Ok(true)));
}

#[test]
fn date_predicate_short_circuits_before_lookups() {
    let f = Filter {
        after: Some([2024, 1, 1]),
        oses: Some(vec![EntryOS::iOS]),
        ..empty_filter()
    };
    let facts = EntryFacts::new();
    assert_eq!(f.entry_step("2024-01-01", &facts), EntryStep::Decided(Ok(false)));
    assert_eq!(f.entry_step("2024-01-02", &facts), EntryStep::Ask(EntryQuery::Os));
}

#[test]
fn term_filter_needs_downloaded_entry() {
    let f = Filter { term: Some("panic".to_string()), ..empty_filter() };
    let mut facts = EntryFacts::new();
    assert_eq!(f.entry_step("2024-01-01", &facts), EntryStep::Ask(EntryQuery::Downloaded));
    facts.downloaded = Some(false);
    assert_eq!(
        f.entry_step("2024-01-01", &facts),
        EntryStep::Decided(Err(FilterErrors::TermFilterBeforeDownloading))
    );
    facts.downloaded = Some(true);
    assert_eq!(f.entry_step("2024-01-01", &facts), EntryStep::Ask(EntryQuery::TermMatches));
    facts.term_matches = Some(Ok(false));
    assert_eq!(f.entry_step("2024-01-01", &facts), EntryStep::Decided(Ok(false)));
    facts.term_matches = Some(Err(FilterErrors::BadRegexTerm));
    assert_eq!(
        f.entry_step("2024-01-01", &facts),
        EntryStep::Decided(Err(FilterErrors::BadRegexTerm))
    );
}

#[test]
fn no_predicates_accepts() {
    let f = empty_filter();
    assert_eq!(f.entry_step("anything", &EntryFacts::new()), EntryStep::Decided(Ok(true)));
}

fn friday_the_20th() -> Today {
    // 2024-09-20 was a Friday.
    Today { year: 2024, month: 9, day: 20, weekday: 5 }
}

#[test]
fn relative_day_names() {
    let t = friday_the_20th();
    assert_eq!(Filter::single_date_on("today", Some(t)), Some([2024, 9, 20]));
    assert_eq!(Filter::single_date_on("yesterday", Some(t)), Some([2024, 9, 19]));
    assert_eq!(Filter::single_date_on("monday", Some(t)), Some([2024, 9, 16]));
    assert_eq!(Filter::single_date_on("Wed", Some(t)), Some([2024, 9, 18]));
    assert_eq!(Filter::single_date_on("friday", Some(t)), Some([2024, 9, 13]));
    assert_eq!(Filter::single_date_on("SATURDAY", Some(t)), Some([2024, 9, 14]));
    assert_eq!(Filter::single_date_on("2021-07-09", Some(t)), Some([2021, 7, 9]));
    assert_eq!(Filter::single_date_on("someday", Some(t)), None);
    assert_eq!(Filter::single_date_on("fridays", Some(t)), None);
}

#[test]
fn relative_day_before_month_start_is_none() {
    let t = Today { year: 2024, month: 9, day: 1, weekday: 0 };
    assert_eq!(Filter::single_date_on("yesterday", Some(t)), None);
    assert_eq!(Filter::single_date_on("today", Some(t)), Some([2024, 9, 1]));
    assert_eq!(Filter::single_date_on("sunday", Some(t)), None);
}

#[test]
fn comma_separated_dates() {
    let t = friday_the_20th();
    assert_eq!(
        Filter::dates_on("2021-07-09,yesterday,nonsense,tue", Some(t)),
        vec![[2021, 7, 9], [2024, 9, 19], [2024, 9, 17]]
    );
    assert_eq!(Filter::dates_on("", Some(t)), Vec::<[u16; 3]>::new());
}

#[test]
fn unknown_day_keeps_explicit_dates_only() {
    assert_eq!(Filter::single_date_on("2021-07-09", None), Some([2021, 7, 9]));
    assert_eq!(Filter::single_date_on("today", None), None);
    assert_eq!(Filter::dates_on("today,2021-07-09", None), vec![[2021, 7, 9]]);
}

#[test]
fn today_matches_the_clock() {
    let d = Filter::string_to_single_date("today").expect("today is a date");
    let again = Filter::string_to_dates("today,2021-07-09");
    assert_eq!(again.len(), 2);
    assert_eq!(again[1], [2021, 7, 9]);
    assert!(d[1] >= 1 && d[1] <= 12);
    assert!(d[2] >= 1 && d[2] <= 31);
    assert!(d[0] >= 2024);
}
