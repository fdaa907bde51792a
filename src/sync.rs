//! The sync engine's decisions and bookkeeping: which days to crawl, which
//! files to fetch, which downloads failed, and the progress counters.

use vstd::prelude::*;
use crate::errors::SyncErrors;
use crate::filter::{date_of, lex_less, Filter};
use crate::text::{chars_of, remove_chars, string_from, without};

verus! {

/// One file to fetch into the local mirror.
#[derive(Debug, Clone, PartialEq, Eq)]
pub struct Download {
    /// The file's path below the archive root: `day/time/file`.
    pub subdir: String,
    /// Whether only a rejected entry's detail file is fetched, for later.
    pub is_cache: bool,
}

/// What a list of downloads holds: each path and its cache-only mark.
pub open spec fn downloads_view(v: Seq<Download>) -> Seq<(Seq<char>, bool)> {
    v.map_values(|d: Download| (d.subdir@, d.is_cache))
}

pub open spec fn strings_view(v: Seq<String>) -> Seq<Seq<char>> {
    v.map_values(|s: String| s@)
}

/// `a/b`.
pub open spec fn join_spec(a: Seq<char>, b: Seq<char>) -> Seq<char> {
    a + seq!['/'] + b
}

/// `a/b`, the path of `b` inside `a`.
pub fn join_path(a: &str, b: &str) -> (r: String)
    ensures
        r@ == join_spec(a@, b@),
{
    let mut s = a.to_owned();
    proof {
        reveal_strlit("/");
    }
    s.append("/");
    s.append(b);
    s
}

/// The paths of the listed files of entry `date_time` that are not on disk
/// yet, in listing order; `present[i]` says whether `files[i]` is.
pub open spec fn missing_paths(date_time: Seq<char>, files: Seq<Seq<char>>, present: Seq<bool>) -> Seq<
    Seq<char>,
>
    decreases files.len(),
{
    if files.len() == 0 || present.len() == 0 {
        Seq::empty()
    } else {
        let prev = missing_paths(date_time, files.drop_last(), present.drop_last());
        if present.last() {
            prev
        } else {
            prev.push(join_spec(date_time, files.last()))
        }
    }
}

proof fn lemma_missing_names_each(
    date_time: Seq<char>,
    files: Seq<Seq<char>>,
    present: Seq<bool>,
    i: int,
)
    requires
        files.len() == present.len(),
        0 <= i < files.len(),
        !present[i],
    ensures
        missing_paths(date_time, files, present).contains(join_spec(date_time, files[i])),
    decreases files.len(),
{
    let prev = missing_paths(date_time, files.drop_last(), present.drop_last());
    if i == files.len() - 1 {
        assert(missing_paths(date_time, files, present).last() == join_spec(date_time, files[i]));
    } else {
        lemma_missing_names_each(date_time, files.drop_last(), present.drop_last(), i);
        let k = choose|k: int|
            0 <= k < prev.len() && prev[k] == join_spec(date_time, files.drop_last()[i]);
        if !present.last() {
            assert(missing_paths(date_time, files, present)[k] == prev[k]);
        }
    }
}

proof fn lemma_nothing_missing(date_time: Seq<char>, files: Seq<Seq<char>>, present: Seq<bool>)
    requires
        files.len() == present.len(),
        forall|i: int| 0 <= i < present.len() ==> present[i],
    ensures
        missing_paths(date_time, files, present).len() == 0,
    decreases files.len(),
{
    if files.len() > 0 {
        lemma_nothing_missing(date_time, files.drop_last(), present.drop_last());
        assert(present[present.len() - 1]);
    }
}

/// Syncing is idempotent: when a second sync sees the same listing of an
/// entry and every file that the first sync enqueued is on disk by then,
/// the second sync enqueues nothing for it.
pub proof fn lemma_resync_enqueues_nothing(
    date_time: Seq<char>,
    files: Seq<Seq<char>>,
    first: Seq<bool>,
    second: Seq<bool>,
)
    requires
        first.len() == files.len(),
        second.len() == files.len(),
        forall|i: int|
            0 <= i < files.len() ==> #[trigger] second[i] == (first[i] || missing_paths(
                date_time,
                files,
                first,
            ).contains(join_spec(date_time, files[i]))),
    ensures
        missing_paths(date_time, files, second).len() == 0,
{
    assert forall|i: int| 0 <= i < second.len() implies second[i] by {
        if !first[i] {
            lemma_missing_names_each(date_time, files, first, i);
        }
    }
    lemma_nothing_missing(date_time, files, second);
}

/// The downloads of `tasks` whose flag in `ok` is false, in order.
pub open spec fn failed_of(tasks: Seq<(Seq<char>, bool)>, ok: Seq<bool>) -> Seq<(Seq<char>, bool)>
    decreases tasks.len(),
{
    if tasks.len() == 0 || ok.len() == 0 {
        Seq::empty()
    } else {
        let prev = failed_of(tasks.drop_last(), ok.drop_last());
        if ok.last() {
            prev
        } else {
            prev.push(tasks.last())
        }
    }
}

/// The progress of one phase of a sync, shared by its workers.
#[derive(Debug, Clone)]
pub struct SyncTracker {
    /// Items in flight.
    pub started: usize,
    /// Items finished.
    pub done: usize,
    /// Items in the phase.
    pub total: usize,
    /// The phase's label.
    pub prefix: String,
}

impl SyncTracker {
    /// The tracker after one more item has started.
    pub open spec fn started_one(self) -> SyncTracker {
        SyncTracker { started: (self.started + 1) as usize, ..self }
    }

    /// The tracker after an in-flight item has finished.
    pub open spec fn finished_one_spec(self) -> SyncTracker {
        SyncTracker { started: (self.started - 1) as usize, done: (self.done + 1) as usize, ..self }
    }

    /// A fresh tracker for a phase with no items yet.
    pub fn new(prefix: String) -> (r: SyncTracker)
        ensures
            r.started == 0,
            r.done == 0,
            r.total == 0,
            r.prefix == prefix,
    {
        SyncTracker { started: 0, done: 0, total: 0, prefix }
    }

    /// Counts one more item in flight.
    pub fn add_one_started(&mut self)
        requires
            old(self).started < usize::MAX,
        ensures
            *final(self) == old(self).started_one(),
    {
        self.started = self.started + 1;
    }

    /// Adds `add` items to the phase's total.
    pub fn add_to_size(&mut self, add: usize)
        requires
            old(self).total + add <= usize::MAX,
        ensures
            *final(self) == (SyncTracker { total: (old(self).total + add) as usize, ..*old(self) }),
    {
        self.total = self.total + add;
    }

    /// Moves one item from in flight to finished.
    pub fn finished_one(&mut self)
        requires
            old(self).started > 0,
            old(self).done < usize::MAX,
        ensures
            *final(self) == old(self).finished_one_spec(),
    {
        self.done = self.done + 1;
        self.started = self.started - 1;
    }

    /// Starts a new phase under the label `title`, with all counts at zero.
    pub fn reset(&mut self, title: String)
        ensures
            final(self).prefix == title,
            final(self).total == 0,
            final(self).done == 0,
            final(self).started == 0,
    {
        self.prefix = title;
        self.total = 0;
        self.done = 0;
        self.started = 0;
    }

    /// Whether every item of the phase has finished.
    pub fn is_complete(&self) -> (r: bool)
        ensures
            r == (self.done >= self.total),
    {
        self.done >= self.total
    }
}

/// Starting an item and then finishing it leaves the in-flight count as it
/// was and counts one more item done, whatever the total; so from a fresh
/// tracker it gives `started == 0` and `done == 1`.
pub proof fn lemma_start_then_finish(t: SyncTracker)
    requires
        t.started < usize::MAX,
        t.done < usize::MAX,
    ensures
        t.started_one().finished_one_spec().started == t.started,
        t.started_one().finished_one_spec().done == t.done + 1,
        t.started_one().finished_one_spec().total == t.total,
        t.started == 0 && t.done == 0 ==> t.started_one().finished_one_spec().started == 0
            && t.started_one().finished_one_spec().done == 1,
{
}

/// What becomes of a time-slot once the filter has judged it.
#[derive(PartialEq, Eq, Structural, Clone, Copy, Debug)]
pub enum EntryPlan {
    /// Accepted: fetch every listed file that is not on disk yet.
    Fetch,
    /// Rejected, but its detail file is kept for later filtering.
    CacheDetails,
    /// Rejected: nothing is fetched and nothing is created on disk.
    Skip,
}

/// What happens to a time-slot given the filter's judgement and whether
/// detail files of rejected entries are cached.
pub fn entry_plan(accepted: bool, cache_details: bool) -> (r: EntryPlan)
    ensures
        r == (if accepted {
            EntryPlan::Fetch
        } else if cache_details {
            EntryPlan::CacheDetails
        } else {
            EntryPlan::Skip
        }),
{
    if accepted {
        EntryPlan::Fetch
    } else if cache_details {
        EntryPlan::CacheDetails
    } else {
        EntryPlan::Skip
    }
}

/// The shared state of one crawl: what was found, what to fetch, and
/// whether a listing failed.
#[derive(Debug, Clone)]
pub struct SyncHelper {
    /// A day or time listing could not be fetched or read.
    pub failed_listing: bool,
    /// The files to fetch once the crawl is over.
    pub to_download: Vec<Download>,
    /// The `(day, time)` pairs found in the first phase.
    pub times_to_check: Vec<(String, String)>,
}

pub open spec fn pairs_view(v: Seq<(String, String)>) -> Seq<(Seq<char>, Seq<char>)> {
    v.map_values(|p: (String, String)| (p.0@, p.1@))
}

/// The `(day, time)` pairs of one day's listing, slashes removed.
pub open spec fn day_pairs(day: Seq<char>, times: Seq<Seq<char>>) -> Seq<(Seq<char>, Seq<char>)> {
    times.map_values(|t: Seq<char>| (without(day, seq!['/']), without(t, seq!['/'])))
}

impl SyncHelper {
    /// An empty crawl.
    pub fn new() -> (r: SyncHelper)
        ensures
            !r.failed_listing,
            r.to_download@.len() == 0,
            r.times_to_check@.len() == 0,
    {
        SyncHelper { failed_listing: false, to_download: Vec::new(), times_to_check: Vec::new() }
    }

    /// Records that a listing failed; the crawl then has to be retried.
    pub fn listing_failed(&mut self)
        ensures
            final(self).failed_listing,
            final(self).to_download == old(self).to_download,
            final(self).times_to_check == old(self).times_to_check,
    {
        self.failed_listing = true;
    }

    /// Adds the time-slots of `day` that its listing named.
    pub fn add_times(&mut self, day: &str, times: &Vec<String>)
        ensures
            final(self).failed_listing == old(self).failed_listing,
            final(self).to_download == old(self).to_download,
            pairs_view(final(self).times_to_check@) == pairs_view(old(self).times_to_check@)
                + day_pairs(day@, strings_view(times@)),
    {
        let slash = vec!['/'];
        proof {
            assert(slash@ =~= seq!['/']);
        }
        let day_chars = chars_of(day);
        let day_fixed = remove_chars(&day_chars, &slash);
        let ghost start = pairs_view(self.times_to_check@);
        let mut i: usize = 0;
        while i < times.len()
            invariant
                i <= times@.len(),
                slash@ == seq!['/'],
                day_fixed@ == without(day@, seq!['/']),
                self.failed_listing == old(self).failed_listing,
                self.to_download == old(self).to_download,
                start == pairs_view(old(self).times_to_check@),
                pairs_view(self.times_to_check@) == start + day_pairs(
                    day@,
                    strings_view(times@).take(i as int),
                ),
            decreases times@.len() - i,
        {
            let t_chars = chars_of(times[i].as_str());
            let t_fixed = remove_chars(&t_chars, &slash);
            let d = string_from(&day_fixed);
            let t = string_from(&t_fixed);
            let ghost before = pairs_view(self.times_to_check@);
            self.times_to_check.push((d, t));
            proof {
                assert(pairs_view(self.times_to_check@) =~= before.push(
                    (without(day@, seq!['/']), without(times@[i as int]@, seq!['/'])),
                ));
                assert(strings_view(times@).take(i + 1) =~= strings_view(times@).take(
                    i as int,
                ).push(times@[i as int]@));
                assert(day_pairs(day@, strings_view(times@).take(i + 1)) =~= day_pairs(
                    day@,
                    strings_view(times@).take(i as int),
                ).push((without(day@, seq!['/']), without(times@[i as int]@, seq!['/']))));
            }
            i = i + 1;
        }
        proof {
            assert(strings_view(times@).take(times@.len() as int) =~= strings_view(times@));
        }
    }

    /// Hands over the pairs found so far, leaving none behind.
    pub fn take_times(&mut self) -> (r: Vec<(String, String)>)
        ensures
            r == old(self).times_to_check,
            final(self).times_to_check@.len() == 0,
            final(self).failed_listing == old(self).failed_listing,
            final(self).to_download == old(self).to_download,
    {
        let mut out: Vec<(String, String)> = Vec::new();
        std::mem::swap(&mut self.times_to_check, &mut out);
        out
    }

    /// Enqueues the listed files of an accepted entry that are not on disk;
    /// `present[i]` says whether `files[i]` already is.
    pub fn enqueue_missing(&mut self, date_time: &str, files: &Vec<String>, present: &Vec<bool>)
        requires
            files@.len() == present@.len(),
        ensures
            final(self).failed_listing == old(self).failed_listing,
            final(self).times_to_check == old(self).times_to_check,
            downloads_view(final(self).to_download@) == downloads_view(old(self).to_download@)
                + missing_paths(date_time@, strings_view(files@), present@).map_values(
                |p: Seq<char>| (p, false),
            ),
    {
        let ghost start = downloads_view(self.to_download@);
        let mut i: usize = 0;
        while i < files.len()
            invariant
                i <= files@.len(),
                files@.len() == present@.len(),
                self.failed_listing == old(self).failed_listing,
                self.times_to_check == old(self).times_to_check,
                start == downloads_view(old(self).to_download@),
                downloads_view(self.to_download@) == start + missing_paths(
                    date_time@,
                    strings_view(files@).take(i as int),
                    present@.take(i as int),
                ).map_values(|p: Seq<char>| (p, false)),
            decreases files@.len() - i,
        {
            let ghost fs = strings_view(files@).take(i + 1);
            let ghost ps = present@.take(i + 1);
            proof {
                assert(fs.drop_last() =~= strings_view(files@).take(i as int));
                assert(ps.drop_last() =~= present@.take(i as int));
                assert(fs.last() == files@[i as int]@);
                assert(ps.last() == present@[i as int]);
            }
            if !present[i] {
                let ghost before = downloads_view(self.to_download@);
                let path = join_path(date_time, files[i].as_str());
                self.to_download.push(Download { subdir: path, is_cache: false });
                proof {
                    assert(downloads_view(self.to_download@) =~= before.push(
                        (join_spec(date_time@, files@[i as int]@), false),
                    ));
                    assert(missing_paths(date_time@, fs, ps).map_values(
                        |p: Seq<char>| (p, false),
                    ) =~= missing_paths(
                        date_time@,
                        strings_view(files@).take(i as int),
                        present@.take(i as int),
                    ).map_values(|p: Seq<char>| (p, false)).push(
                        (join_spec(date_time@, files@[i as int]@), false),
                    ));
                }
            }
            i = i + 1;
        }
        proof {
            assert(strings_view(files@).take(files@.len() as int) =~= strings_view(files@));
            assert(present@.take(present@.len() as int) =~= present@);
        }
    }

    /// Enqueues the detail file `details` of a rejected entry, unless it is
    /// already on disk.
    pub fn enqueue_details(&mut self, date_time: &str, details: &str, cached: bool)
        ensures
            final(self).failed_listing == old(self).failed_listing,
            final(self).times_to_check == old(self).times_to_check,
            downloads_view(final(self).to_download@) == if cached {
                downloads_view(old(self).to_download@)
            } else {
                downloads_view(old(self).to_download@).push((join_spec(date_time@, details@), true))
            },
    {
        if !cached {
            let ghost before = downloads_view(self.to_download@);
            let path = join_path(date_time, details);
            self.to_download.push(Download { subdir: path, is_cache: true });
            proof {
                assert(downloads_view(self.to_download@) =~= before.push(
                    (join_spec(date_time@, details@), true),
                ));
            }
        }
    }

    /// Ends the crawl: the downloads to run, or `ListingFailed` when any
    /// listing failed, since entries may then have been missed.
    pub fn finish(self) -> (r: Result<Vec<Download>, SyncErrors>)
        ensures
            self.failed_listing ==> r matches Err(SyncErrors::ListingFailed),
            !self.failed_listing ==> r == Ok::<Vec<Download>, SyncErrors>(self.to_download),
    {
        if self.failed_listing {
            Err(SyncErrors::ListingFailed)
        } else {
            Ok(self.to_download)
        }
    }
}

/// The days of a listing that pass the filter's date predicates, in order:
/// the others are never listed.
pub fn days_to_check(filter: &Filter, days: &Vec<String>) -> (r: Vec<String>)
    ensures
        strings_view(r@) == strings_view(days@).filter(|d: Seq<char>| filter.day_ok_spec(d)),
{
    let ghost keep = |d: Seq<char>| filter.day_ok_spec(d);
    let mut out: Vec<String> = Vec::new();
    let mut i: usize = 0;
    while i < days.len()
        invariant
            i <= days@.len(),
            keep == (|d: Seq<char>| filter.day_ok_spec(d)),
            strings_view(out@) == strings_view(days@).take(i as int).filter(keep),
        decreases days@.len() - i,
    {
        let ghost prefix = strings_view(days@).take(i + 1);
        proof {
            reveal(Seq::filter);
            assert(prefix.drop_last() =~= strings_view(days@).take(i as int));
            assert(prefix.last() == days@[i as int]@);
            assert(prefix.filter(keep) == (if keep(prefix.last()) {
                prefix.drop_last().filter(keep).push(prefix.last())
            } else {
                prefix.drop_last().filter(keep)
            }));
        }
        if filter.day_ok(days[i].as_str()) {
            let ghost before = strings_view(out@);
            out.push(days[i].clone());
            proof {
                assert(strings_view(out@) =~= before.push(days@[i as int]@));
            }
        }
        i = i + 1;
    }
    proof {
        assert(strings_view(days@).take(days@.len() as int) =~= strings_view(days@));
    }
    out
}

/// Pruning comes before any listing: under AND, a day whose date is not
/// strictly after the `after` bound is never among the days to check, so
/// its time-slots are never listed.
pub proof fn lemma_pruned_day_not_checked(
    f: Filter,
    days: Seq<Seq<char>>,
    day: Seq<char>,
    a: [u16; 3],
)
    requires
        f.after == Some(a),
        !f.any,
        date_of(day) matches Some(d) && !lex_less(a@, d),
    ensures
        !days.filter(|d: Seq<char>| f.day_ok_spec(d)).contains(day),
{
    let keep = |d: Seq<char>| f.day_ok_spec(d);
    let kept = days.filter(keep);
    days.filter_lemma(keep);
    if kept.contains(day) {
        let i = choose|i: int| 0 <= i < kept.len() && kept[i] == day;
        assert(keep(kept[i]));
        assert(!f.day_ok_spec(day));
    }
}

/// The outcome of the download phase: success when every flag in `ok` is
/// set, else exactly the downloads that failed, in order, for a retry.
pub fn download_result(tasks: Vec<Download>, ok: &Vec<bool>) -> (r: Result<(), SyncErrors>)
    requires
        tasks@.len() == ok@.len(),
    ensures
        (r is Ok) == (forall|i: int| 0 <= i < ok@.len() ==> ok@[i]),
        r matches Err(e) ==> e matches SyncErrors::FilesDownloadFailed(failed) && downloads_view(
            failed@,
        ) == failed_of(downloads_view(tasks@), ok@),
{
    let ghost tv = downloads_view(tasks@);
    let mut failed: Vec<Download> = Vec::new();
    let mut i: usize = 0;
    while i < tasks.len()
        invariant
            i <= tasks@.len(),
            tasks@.len() == ok@.len(),
            tv == downloads_view(tasks@),
            downloads_view(failed@) == failed_of(tv.take(i as int), ok@.take(i as int)),
            (failed@.len() == 0) == (forall|j: int| 0 <= j < i ==> ok@[j]),
        decreases tasks@.len() - i,
    {
        proof {
            assert(tv.take(i + 1).drop_last() =~= tv.take(i as int));
            assert(ok@.take(i + 1).drop_last() =~= ok@.take(i as int));
            assert(tv.take(i + 1).last() == tv[i as int]);
            assert(ok@.take(i + 1).last() == ok@[i as int]);
        }
        if !ok[i] {
            let ghost before = downloads_view(failed@);
            let subdir = tasks[i].subdir.clone();
            failed.push(Download { subdir, is_cache: tasks[i].is_cache });
            proof {
                assert(downloads_view(failed@) =~= before.push(tv[i as int]));
            }
        }
        i = i + 1;
    }
    proof {
        assert(tv.take(tv.len() as int) =~= tv);
        assert(ok@.take(ok@.len() as int) =~= ok@);
    }
    if failed.len() == 0 {
        Ok(())
    } else {
        Err(SyncErrors::FilesDownloadFailed(failed))
    }
}

} // verus!
