use std::sync::Arc;

use rager::config::Config;
use rager::entry::{Entry, EntryOS, OsLookup, OsProgress, DETAILS};
use rager::errors::FilterErrors;
use rager::listing::{get_links, listed_file_names};
use rager::term::matching_files;

fn config() -> Arc<Config> {
    Arc::new(Config {
        server: "https://logs.example.org".to_string(),
        username: "u".to_string(),
        password: "p".to_string(),
        threads: 4,
        beeper_hacks: true,
        cache_details: false,
        sync_retry_limit: Some(3),
        linear_token: None,
    })
}

fn strings(v: &[&str]) -> Vec<String> {
    v.iter().map(|s| s.to_string()).collect()
}

#[test]
fn new_entry_drops_separators() {
    let e = Entry::new("2021-07-21/", "022901\\", config());
    assert_eq!(e.day, "2021-07-21");
    assert_eq!(e.time, "022901");
    assert!(!e.checked_details);
    assert!(e.files.is_none() && e.os.is_none() && e.user_id.is_none());
    assert_eq!(e.date_time(), "2021-07-21/022901");
    assert_eq!(e.details_file(), format!("2021-07-21/022901/{}", DETAILS));
}

#[test]
fn details_file_is_parsed() {
    let mut e = Entry::new("2021-07-21", "022901", config());
    e.apply_details(
        "App crashed on launch\r\nuser_id @alice:example.org extra\nApplication: Element Android\nVersion 1.4.2\nbuild 42 nightly\nsomething else\n",
    );
    assert!(e.checked_details);
    assert_eq!(e.reason.as_deref(), Some("App crashed on launch"));
    assert_eq!(e.user_id.as_deref(), Some("@alice:example.org"));
    assert_eq!(e.os, Some(EntryOS::Android));
    assert_eq!(e.version.as_deref(), Some("1.4.2 (42 nightly)"));
}

#[test]
fn details_first_occurrence_wins() {
    let mut e = Entry::new("d", "t", config());
    e.apply_details("why\nApplication: iOS app\nApplication: desktop\nuser_id bob\nuser_id carol\n");
    assert_eq!(e.os, Some(EntryOS::iOS));
    assert_eq!(e.user_id.as_deref(), Some("bob"));
    assert_eq!(e.version, None);
}

#[test]
fn details_stop_after_every_kind_was_seen() {
    let mut e = Entry::new("d", "t", config());
    e.apply_details("why\nApplication: web\nuser_id u1\napp_hash abc\nbuild 7\nuser_id u2\n");
    assert_eq!(e.os, Some(EntryOS::Desktop));
    assert_eq!(e.version.as_deref(), Some("abc (7)"));
    assert_eq!(e.user_id.as_deref(), Some("u1"));
}

#[test]
fn details_keep_fields_they_do_not_give() {
    let mut e = Entry::new("d", "t", config());
    e.os = Some(EntryOS::iOS);
    e.apply_details("only a reason");
    assert_eq!(e.reason.as_deref(), Some("only a reason"));
    assert_eq!(e.os, Some(EntryOS::iOS));
    let mut empty = Entry::new("d", "t", config());
    empty.apply_details("");
    assert!(empty.checked_details);
    assert_eq!(empty.reason, None);
}

#[test]
fn build_without_version_is_the_version() {
    let mut e = Entry::new("d", "t", config());
    e.apply_details("why\nbuild 99\nuser_id\n");
    assert_eq!(e.version.as_deref(), Some("99"));
    assert_eq!(e.user_id, None);
}

#[test]
fn application_line_platforms() {
    assert_eq!(EntryOS::from_application_line("application: element android"), Some(EntryOS::Android));
    assert_eq!(EntryOS::from_application_line("application: element web"), Some(EntryOS::Desktop));
    assert_eq!(EntryOS::from_application_line("application: riot-desktop"), Some(EntryOS::Desktop));
    assert_eq!(EntryOS::from_application_line("application: element-ios"), Some(EntryOS::iOS));
    assert_eq!(EntryOS::from_application_line("application: ios android"), Some(EntryOS::Android));
    assert_eq!(EntryOS::from_application_line("application: other"), None);
}

#[test]
fn os_names_in_any_case() {
    assert_eq!(EntryOS::from_name("IOS"), Ok(EntryOS::iOS));
    assert_eq!(EntryOS::from_name("Android"), Ok(EntryOS::Android));
    assert_eq!(EntryOS::from_name("WEB"), Ok(EntryOS::Desktop));
    assert_eq!(EntryOS::from_name("ios android"), Ok(EntryOS::iOS));
    assert!(EntryOS::from_name("windows").is_err());
    assert_eq!(EntryOS::from_lowercase_name("desktop"), Some(EntryOS::Desktop));
    assert_eq!(EntryOS::iOS.to_string(), "iOS");
    assert_eq!(EntryOS::Android.to_string(), "Android");
    assert_eq!(EntryOS::Desktop.to_string(), "Desktop");
}

#[test]
fn console_log_means_ios() {
    let mut e = Entry::new("d", "t", config());
    e.guess_os_from_files();
    assert_eq!(e.os, None);
    e.store_files(strings(&["logs.txt", "console.2021.log"]));
    e.guess_os_from_files();
    assert_eq!(e.os, Some(EntryOS::iOS));
    e.store_files(strings(&["logs.txt"]));
    e.guess_os_from_files();
    assert_eq!(e.os, None);
}

#[test]
fn stored_files_are_sorted() {
    let mut e = Entry::new("d", "t", config());
    e.store_files(strings(&["logs.txt", "details.log.gz", "console.log", "Zeta"]));
    assert_eq!(
        e.files,
        Some(strings(&["Zeta", "console.log", "details.log.gz", "logs.txt"]))
    );
}

#[test]
fn descriptions() {
    let mut e = Entry::new("2021-07-21", "022901", config());
    assert_eq!(
        e.description(),
        "\x1b[1munknown\x1b[0m: unknown\n\tOS:       \x1b[32;1munknown\x1b[0m\n\tVersion:  \x1b[32;1munknown\x1b[0m\n\tLocation: \"2021-07-21/022901\"\n"
    );
    assert_eq!(
        e.selectable_description(),
        "unknown (unknown, on 2021-07-21 at 02:29:01): unknown"
    );
    e.apply_details("Crash\nuser_id alice\nApplication: element-ios\nVersion 1.2\n");
    assert_eq!(
        e.selectable_description(),
        "alice (iOS, on 2021-07-21 at 02:29:01): Crash"
    );
    assert_eq!(
        e.description(),
        "\x1b[1malice\x1b[0m: Crash\n\tOS:       \x1b[32;1miOS\x1b[0m\n\tVersion:  \x1b[32;1m1.2\x1b[0m\n\tLocation: \"2021-07-21/022901\"\n"
    );
}

#[test]
fn listing_page_links() {
    let page = "<html>\n<a href=\"2021-07-21/\">2021-07-21/</a>\n<a href=\"x\"></a>\nno anchor\n<a href=\"2021-07-22/\">2021-07-22/</a>\n";
    assert_eq!(get_links(page), strings(&["2021-07-21", "2021-07-22"]));
    assert_eq!(
        get_links("<a href='2021-07-21/'>2021-07-21/</a>\n<a href='2021-07-22/'>2021-07-22/</a>"),
        strings(&["2021-07-21", "2021-07-22"])
    );
    assert_eq!(get_links("<a>/</a>\n<a>x//</a>"), strings(&["x/"]));
    assert_eq!(listed_file_names(page), strings(&["2021-07-21", "2021-07-22"]));
    assert!(get_links("").is_empty());
    assert!(get_links("garbage without tags").is_empty());
}

#[test]
fn term_matching_files() {
    let files = strings(&["a.log", "b.log", "c.log"]);
    let contents = vec![
        Some("all fine".to_string()),
        Some("thread panicked at 12".to_string()),
        None,
    ];
    assert_eq!(
        matching_files("panick?ed", &files, &contents),
        Ok(strings(&["b.log"]))
    );
    assert_eq!(matching_files("absent", &files, &contents), Ok(Vec::new()));
    assert_eq!(
        matching_files("unclosed(", &files, &contents),
        Err(FilterErrors::BadRegexTerm)
    );
}

#[test]
fn entry_files_containing_term() {
    let mut e = Entry::new("d", "t", config());
    assert_eq!(e.files_containing_term("x", &Vec::new()), Ok(Vec::new()));
    assert_eq!(e.files_containing_term("(", &Vec::new()), Err(FilterErrors::BadRegexTerm));
    e.store_files(strings(&["b.log", "a.log"]));
    let contents = vec![Some("ERROR here".to_string()), Some("fine".to_string())];
    assert_eq!(e.files_containing_term("ERR", &contents), Ok(strings(&["a.log"])));
}

#[test]
fn details_words_split_on_any_whitespace() {
    let mut e = Entry::new("d", "t", config());
    e.apply_details("why\nuser_id   @alice:example.org\tmore\nVersion\t2.0\n");
    assert_eq!(e.user_id.as_deref(), Some("@alice:example.org"));
    assert_eq!(e.version.as_deref(), Some("2.0"));
}

#[test]
fn os_lookup_reads_mirrored_details_first() {
    let e = Entry::new("d", "t", config());
    let mut p = OsProgress::new();
    assert_eq!(e.next_os_lookup(true, true, &p), OsLookup::ReadLocalDetails);
    p.local_read = Some(true);
    assert_eq!(e.next_os_lookup(true, true, &p), OsLookup::Done);
}

#[test]
fn os_lookup_guesses_then_fetches() {
    let mut e = Entry::new("d", "t", config());
    let mut p = OsProgress::new();
    p.local_read = Some(false);
    assert_eq!(e.next_os_lookup(true, true, &p), OsLookup::ListFiles);
    e.store_files(strings(&["logs.txt"]));
    p.listed = Some(true);
    assert_eq!(e.next_os_lookup(true, true, &p), OsLookup::GuessFromFiles);
    e.guess_os_from_files();
    p.guessed = true;
    assert_eq!(e.next_os_lookup(true, true, &p), OsLookup::FetchDetails);
    p.fetched = true;
    assert_eq!(e.next_os_lookup(true, true, &p), OsLookup::Done);
}

#[test]
fn os_lookup_without_guessing_fetches_details() {
    let mut e = Entry::new("d", "t", config());
    let mut p = OsProgress::new();
    assert_eq!(e.next_os_lookup(false, false, &p), OsLookup::FetchDetails);
    e.os = Some(EntryOS::Android);
    assert_eq!(e.next_os_lookup(false, false, &p), OsLookup::Done);
    e.os = None;
    p.listed = Some(false);
    assert_eq!(e.next_os_lookup(false, true, &p), OsLookup::Done);
}

#[test]
fn os_lookup_guess_from_console_log_skips_fetch() {
    let mut e = Entry::new("d", "t", config());
    e.store_files(strings(&["console.log"]));
    let mut p = OsProgress::new();
    assert_eq!(e.next_os_lookup(false, true, &p), OsLookup::GuessFromFiles);
    e.guess_os_from_files();
    p.guessed = true;
    assert_eq!(e.os, Some(EntryOS::iOS));
    assert_eq!(e.next_os_lookup(false, true, &p), OsLookup::Done);
}

