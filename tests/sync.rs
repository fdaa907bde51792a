use rager::config::Config;
use rager::errors::SyncErrors;
use rager::filter::Filter;
use rager::sync::{days_to_check, download_result, entry_plan, Download, EntryPlan, SyncHelper, SyncTracker};

fn task(path: &str) -> Download {
    Download { subdir: path.to_string(), is_cache: false }
}

fn strings(v: &[&str]) -> Vec<String> {
    v.iter().map(|s| s.to_string()).collect()
}

#[test]
fn start_then_finish_leaves_nothing_in_flight() {
    let mut t = SyncTracker::new("Checking days:".to_string());
    t.add_one_started();
    t.finished_one();
    assert_eq!(t.started, 0);
    assert_eq!(t.done, 1);
    assert_eq!(t.total, 0);

    let mut u = SyncTracker::new("Downloaded:".to_string());
    u.add_to_size(5);
    u.add_one_started();
    u.finished_one();
    assert_eq!((u.started, u.done, u.total), (0, 1, 5));
    assert!(!u.is_complete());
}

#[test]
fn tracker_reset_clears_counts() {
    let mut t = SyncTracker::new("a".to_string());
    t.add_to_size(3);
    t.add_one_started();
    t.add_one_started();
    t.finished_one();
    assert_eq!((t.started, t.done, t.total), (1, 1, 3));
    t.reset("Downloaded:".to_string());
    assert_eq!((t.started, t.done, t.total), (0, 0, 0));
    assert_eq!(t.prefix, "Downloaded:");
    assert!(t.is_complete());
}

#[test]
fn second_sync_enqueues_nothing() {
    let files = strings(&["console.log", "details.log.gz", "logs.txt"]);
    let mut first = SyncHelper::new();
    first.enqueue_missing("2024-01-01/120000", &files, &vec![false, true, false]);
    let paths: Vec<String> = first.to_download.iter().map(|d| d.subdir.clone()).collect();
    assert_eq!(
        paths,
        strings(&["2024-01-01/120000/console.log", "2024-01-01/120000/logs.txt"])
    );
    assert!(first.to_download.iter().all(|d| !d.is_cache));

    // After those downloads every listed file is on disk.
    let mut second = SyncHelper::new();
    second.enqueue_missing("2024-01-01/120000", &files, &vec![true, true, true]);
    assert!(second.to_download.is_empty());
}

#[test]
fn pruned_day_is_never_listed() {
    let f = Filter {
        oses: None,
        before: None,
        after: Some([2024, 1, 1]),
        when: None,
        user: None,
        term: None,
        any: false,
        reject_unsure: false,
    };
    let days = strings(&["2024-01-01", "2024-01-02"]);
    assert_eq!(days_to_check(&f, &days), strings(&["2024-01-02"]));
}

#[test]
fn days_without_bounds_are_all_checked() {
    let f = Filter {
        oses: None,
        before: None,
        after: None,
        when: None,
        user: None,
        term: None,
        any: false,
        reject_unsure: false,
    };
    let days = strings(&["2024-01-01/", "garbage"]);
    assert_eq!(days_to_check(&f, &days), days);
}

#[test]
fn failed_write_is_the_only_retried_task() {
    let tasks = vec![task("d/t/a"), task("d/t/b"), task("d/t/c")];
    match download_result(tasks, &vec![true, false, true]) {
        Err(SyncErrors::FilesDownloadFailed(failed)) => assert_eq!(failed, vec![task("d/t/b")]),
        other => panic!("unexpected {:?}", other),
    }
}

#[test]
fn all_downloads_succeeding_is_ok() {
    let tasks = vec![task("d/t/a"), task("d/t/b")];
    assert!(download_result(tasks, &vec![true, true]).is_ok());
    assert!(download_result(Vec::new(), &Vec::new()).is_ok());
}

#[test]
fn listing_failure_fails_the_crawl() {
    let mut h = SyncHelper::new();
    h.enqueue_missing("d/t", &strings(&["a"]), &vec![false]);
    h.listing_failed();
    assert!(matches!(h.finish(), Err(SyncErrors::ListingFailed)));

    let mut ok = SyncHelper::new();
    ok.enqueue_missing("d/t", &strings(&["a"]), &vec![false]);
    match ok.finish() {
        Ok(v) => assert_eq!(v, vec![task("d/t/a")]),
        Err(e) => panic!("unexpected {:?}", e),
    }
}

#[test]
fn times_are_paired_with_their_day() {
    let mut h = SyncHelper::new();
    h.add_times("2024-01-01/", &strings(&["120000/", "130000"]));
    h.add_times("2024-01-02", &Vec::new());
    let pairs = h.take_times();
    assert_eq!(
        pairs,
        vec![
            ("2024-01-01".to_string(), "120000".to_string()),
            ("2024-01-01".to_string(), "130000".to_string()),
        ]
    );
    assert!(h.times_to_check.is_empty());
}

#[test]
fn rejected_entry_caches_only_its_details() {
    let mut h = SyncHelper::new();
    h.enqueue_details("2024-01-01/120000", "details.log.gz", false);
    h.enqueue_details("2024-01-01/130000", "details.log.gz", true);
    assert_eq!(
        h.to_download,
        vec![Download { subdir: "2024-01-01/120000/details.log.gz".to_string(), is_cache: true }]
    );
}

#[test]
fn plan_follows_outcome_and_caching() {
    assert_eq!(entry_plan(true, false), EntryPlan::Fetch);
    assert_eq!(entry_plan(true, true), EntryPlan::Fetch);
    assert_eq!(entry_plan(false, true), EntryPlan::CacheDetails);
    assert_eq!(entry_plan(false, false), EntryPlan::Skip);
}

#[test]
fn listing_urls() {
    let c = Config {
        server: "https://logs.example.org".to_string(),
        username: "u".to_string(),
        password: "p".to_string(),
        threads: 4,
        beeper_hacks: false,
        cache_details: false,
        sync_retry_limit: None,
        linear_token: None,
    };
    assert_eq!(c.listing_url(""), "https://logs.example.org/api/listing/");
    assert_eq!(
        c.listing_url("2024-01-01/120000"),
        "https://logs.example.org/api/listing/2024-01-01/120000"
    );
}
