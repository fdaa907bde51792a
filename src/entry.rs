//! One remote time-slot of the archive and the metadata resolved for it.

use std::sync::Arc;
use vstd::prelude::*;
use crate::config::Config;
use crate::errors::FilterErrors;
use crate::term::{match_flags, matching_files, regex_compiles, selected};
use crate::sync::strings_view;
use crate::sync::{join_path, join_spec};
use crate::text::{
    after_first, chars_of, contains_chars, has_prefix, has_substring, lines_of, lines_spec,
    remove_chars, rest_after, sort_strings, sorted_names, starts_with, string_from, without, words_of,
    words_spec,
};

verus! {

/// The reserved name of the detail file inside every time-slot.
pub const DETAILS: &'static str = "details.log.gz";

/// What `str::to_lowercase` gives for a string: Unicode lower case.
pub uninterp spec fn lower_of(s: Seq<char>) -> Seq<char>;

/// Relies on `str::to_lowercase`: the result depends on the characters
/// alone.
#[verifier::external_body]
pub(crate) fn lowercase(s: &str) -> (r: String)
    ensures
        r@ == lower_of(s@),
{
    s.to_lowercase()
}

/// What `str`'s `Debug` formatting gives: the text quoted and escaped.
pub uninterp spec fn debug_of(s: Seq<char>) -> Seq<char>;

/// Relies on `<str as Debug>::fmt`: the result depends on the characters
/// alone.
#[verifier::external_body]
pub(crate) fn debug_quoted(s: &str) -> (r: String)
    ensures
        r@ == debug_of(s@),
{
    format!("{:?}", s)
}

/// The client platform that produced an entry.
#[allow(non_camel_case_types)]
#[derive(PartialEq, Eq, Structural, Clone, Copy, Debug)]
pub enum EntryOS {
    iOS,
    Android,
    Desktop,
}

/// The platform that an already lower-cased `Application` line of a detail
/// file names: `android` first, then `web` or `desktop`, then `ios`.
pub open spec fn os_of_application(lower: Seq<char>) -> Option<EntryOS> {
    if has_substring(lower, "android"@) {
        Some(EntryOS::Android)
    } else if has_substring(lower, "web"@) || has_substring(lower, "desktop"@) {
        Some(EntryOS::Desktop)
    } else if has_substring(lower, "ios"@) {
        Some(EntryOS::iOS)
    } else {
        None
    }
}

/// The platform that an already lower-cased user-given name means: `ios`
/// first, then `android`, then `web` or `desktop`.
pub open spec fn os_of_name(lower: Seq<char>) -> Option<EntryOS> {
    if has_substring(lower, "ios"@) {
        Some(EntryOS::iOS)
    } else if has_substring(lower, "android"@) {
        Some(EntryOS::Android)
    } else if has_substring(lower, "web"@) || has_substring(lower, "desktop"@) {
        Some(EntryOS::Desktop)
    } else {
        None
    }
}

pub open spec fn os_display(os: EntryOS) -> Seq<char> {
    match os {
        EntryOS::iOS => "iOS"@,
        EntryOS::Android => "Android"@,
        EntryOS::Desktop => "Desktop"@,
    }
}

/// Whether `lower` contains the literal `word`.
fn mentions(lower: &Vec<char>, word: &str) -> (r: bool)
    ensures
        r == has_substring(lower@, word@),
{
    let w = chars_of(word);
    contains_chars(lower, &w)
}

impl EntryOS {
    /// The platform named by the lower-cased `Application` line of a detail
    /// file, if any.
    pub fn from_application_line(lower: &str) -> (r: Option<EntryOS>)
        ensures
            r == os_of_application(lower@),
    {
        let l = chars_of(lower);
        if mentions(&l, "android") {
            Some(EntryOS::Android)
        } else if mentions(&l, "web") || mentions(&l, "desktop") {
            Some(EntryOS::Desktop)
        } else if mentions(&l, "ios") {
            Some(EntryOS::iOS)
        } else {
            None
        }
    }

    /// The platform meant by a lower-cased user-given name, if any.
    pub fn from_lowercase_name(lower: &str) -> (r: Option<EntryOS>)
        ensures
            r == os_of_name(lower@),
    {
        let l = chars_of(lower);
        if mentions(&l, "ios") {
            Some(EntryOS::iOS)
        } else if mentions(&l, "android") {
            Some(EntryOS::Android)
        } else if mentions(&l, "web") || mentions(&l, "desktop") {
            Some(EntryOS::Desktop)
        } else {
            None
        }
    }

    /// The platform meant by a user-given name such as `iOS` or `web`, in
    /// any case; an error message for any other name.
    pub fn from_name(val: &str) -> (r: Result<EntryOS, String>)
        ensures
            match r {
                Ok(os) => os_of_name(lower_of(val@)) == Some(os),
                Err(_) => os_of_name(lower_of(val@)) is None,
            },
    {
        let lower = lowercase(val);
        match Self::from_lowercase_name(lower.as_str()) {
            Some(os) => Ok(os),
            None => Err(
                "EntryOS string must contain 'ios', 'android', 'web', or 'desktop'".to_owned(),
            ),
        }
    }

    /// The platform's display name.
    pub fn to_string(&self) -> (r: String)
        ensures
            r@ == os_display(*self),
    {
        match self {
            EntryOS::iOS => "iOS".to_owned(),
            EntryOS::Android => "Android".to_owned(),
            EntryOS::Desktop => "Desktop".to_owned(),
        }
    }
}

pub open spec fn opt_view(o: Option<String>) -> Option<Seq<char>> {
    match o {
        Some(s) => Some(s@),
        None => None,
    }
}

pub open spec fn or_unknown(o: Option<Seq<char>>) -> Seq<char> {
    match o {
        Some(s) => s,
        None => "unknown"@,
    }
}

pub open spec fn os_or_unknown(o: Option<EntryOS>) -> Seq<char> {
    match o {
        Some(os) => os_display(os),
        None => "unknown"@,
    }
}

/// The text of an optional field, or `unknown`.
fn text_or_unknown(o: &Option<String>) -> (r: String)
    ensures
        r@ == or_unknown(opt_view(*o)),
{
    match o {
        Some(s) => s.clone(),
        None => "unknown".to_owned(),
    }
}

/// The name of an optional platform, or `unknown`.
fn os_text(o: &Option<EntryOS>) -> (r: String)
    ensures
        r@ == os_or_unknown(*o),
{
    match o {
        Some(os) => os.to_string(),
        None => "unknown".to_owned(),
    }
}

/// Whether one of the file names marks an iOS entry: a console log.
pub open spec fn names_console_log(files: Seq<String>) -> bool {
    exists|i: int| 0 <= i < files.len() && starts_with(#[trigger] files[i]@, "console"@)
}

/// What a detail file has given so far, and which kinds of line have been
/// met: the first line (the reason), `Application`, `user_id`, `Version` or
/// `app_hash`, and `build`.
pub struct DetailsScan {
    pub reason: Option<Seq<char>>,
    pub user_id: Option<Seq<char>>,
    pub os: Option<EntryOS>,
    pub version: Option<Seq<char>>,
    pub seen_reason: bool,
    pub seen_app: bool,
    pub seen_user: bool,
    pub seen_version: bool,
    pub seen_build: bool,
}

impl DetailsScan {
    pub open spec fn all_seen(self) -> bool {
        self.seen_reason && self.seen_app && self.seen_user && self.seen_version && self.seen_build
    }
}

/// The second whitespace-separated word of a line, if there is one.
pub open spec fn second_token(line: Seq<char>) -> Option<Seq<char>> {
    let w = words_spec(line);
    if w.len() > 1 {
        Some(w[1])
    } else {
        None
    }
}

/// The effect of one line of a detail file; `first` marks the first line.
/// Each kind of line counts once: later lines of a kind already met change
/// nothing.
pub open spec fn scan_line(s: DetailsScan, first: bool, line: Seq<char>) -> DetailsScan {
    if first {
        DetailsScan { reason: Some(line), seen_reason: true, ..s }
    } else if starts_with(line, "Application"@) {
        if s.seen_app {
            s
        } else {
            DetailsScan {
                os: match os_of_application(lower_of(line)) {
                    Some(o) => Some(o),
                    None => s.os,
                },
                seen_app: true,
                ..s
            }
        }
    } else if starts_with(line, "user_id"@) {
        if s.seen_user {
            s
        } else {
            DetailsScan {
                user_id: match second_token(line) {
                    Some(u) => Some(u),
                    None => s.user_id,
                },
                seen_user: true,
                ..s
            }
        }
    } else if starts_with(line, "Version"@) || starts_with(line, "app_hash"@) {
        if s.seen_version {
            s
        } else {
            DetailsScan {
                version: match second_token(line) {
                    Some(v) => Some(v),
                    None => s.version,
                },
                seen_version: true,
                ..s
            }
        }
    } else if starts_with(line, "build"@) {
        if s.seen_build {
            s
        } else {
            DetailsScan {
                version: match after_first(line, ' ') {
                    Some(b) => Some(
                        match s.version {
                            Some(v) => v + " ("@ + b + ")"@,
                            None => b,
                        },
                    ),
                    None => s.version,
                },
                seen_build: true,
                ..s
            }
        }
    } else {
        s
    }
}

/// The scan over `lines`, which stops once every kind of line was met.
pub open spec fn scan_lines(start: DetailsScan, lines: Seq<Seq<char>>) -> DetailsScan
    decreases lines.len(),
{
    if lines.len() == 0 {
        start
    } else {
        let prev = scan_lines(start, lines.drop_last());
        if prev.all_seen() {
            prev
        } else {
            scan_line(prev, lines.len() == 1, lines.last())
        }
    }
}

proof fn lemma_scan_settled(start: DetailsScan, lines: Seq<Seq<char>>, i: int)
    requires
        0 <= i <= lines.len(),
        scan_lines(start, lines.take(i)).all_seen(),
    ensures
        scan_lines(start, lines) == scan_lines(start, lines.take(i)),
    decreases lines.len() - i,
{
    if i < lines.len() {
        assert(lines.take(i + 1).drop_last() =~= lines.take(i));
        lemma_scan_settled(start, lines, i + 1);
    } else {
        assert(lines.take(i) =~= lines);
    }
}

/// A lookup that resolving an entry's platform needs next.
#[derive(PartialEq, Eq, Structural, Clone, Copy, Debug)]
pub enum OsLookup {
    /// Read the mirrored detail file; no network request.
    ReadLocalDetails,
    /// List the entry's files, to guess from their names.
    ListFiles,
    /// Guess the platform from the listed file names.
    GuessFromFiles,
    /// Fetch and read the server's detail file.
    FetchDetails,
    /// Nothing more to look up.
    Done,
}

/// What has been tried while resolving an entry's platform: `None` means
/// not tried, `Some(ok)` whether it succeeded.
#[derive(PartialEq, Eq, Structural, Clone, Copy, Debug)]
pub struct OsProgress {
    /// Reading the mirrored detail file.
    pub local_read: Option<bool>,
    /// Listing the entry's files.
    pub listed: Option<bool>,
    /// Whether the file names were used to guess.
    pub guessed: bool,
    /// Whether the server's detail file was fetched (or its fetch failed).
    pub fetched: bool,
}

impl OsProgress {
    /// Nothing tried yet.
    pub fn new() -> (r: OsProgress)
        ensures
            r == (OsProgress { local_read: None, listed: None, guessed: false, fetched: false }),
    {
        OsProgress { local_read: None, listed: None, guessed: false, fetched: false }
    }
}

/// One time-slot `day/time` of the archive, with what is known of it.
pub struct Entry {
    /// The day, such as `2021-07-21`.
    pub day: String,
    /// The time-slot within the day, such as `022901`.
    pub time: String,
    /// Whether the detail file has been read; its fields are then final.
    pub checked_details: bool,
    /// The entry's file names, sorted, once listed.
    pub files: Option<Vec<String>>,
    /// Why the entry was filed.
    pub reason: Option<String>,
    /// Who filed it.
    pub user_id: Option<String>,
    /// From which platform.
    pub os: Option<EntryOS>,
    /// From which client version.
    pub version: Option<String>,
    /// The connection it belongs to.
    pub config: Arc<Config>,
}

impl Entry {
    pub open spec fn date_time_spec(&self) -> Seq<char> {
        join_spec(self.day@, self.time@)
    }

    /// The entry's metadata as a scan that has met nothing yet.
    pub open spec fn scan_start(&self) -> DetailsScan {
        DetailsScan {
            reason: opt_view(self.reason),
            user_id: opt_view(self.user_id),
            os: self.os,
            version: opt_view(self.version),
            seen_reason: false,
            seen_app: false,
            seen_user: false,
            seen_version: false,
            seen_build: false,
        }
    }

    /// The metadata after reading a detail file with text `contents`.
    pub open spec fn details_after(&self, contents: Seq<char>) -> DetailsScan {
        scan_lines(self.scan_start(), lines_spec(contents))
    }

    /// Takes the entry's reason, user id, platform and version from the
    /// text of its detail file: the first line is the reason; an
    /// `Application` line names the platform; the second whitespace-separated
    /// word of a `user_id` line is the user id; that of a `Version` or
    /// `app_hash` line is the version; what follows the first space of a `build` line
    /// is added to the version in parentheses. Fields that the file does not
    /// give keep their values, and the details count as checked.
    pub fn apply_details(&mut self, contents: &str)
        ensures
            final(self).checked_details,
            final(self).day == old(self).day,
            final(self).time == old(self).time,
            final(self).files == old(self).files,
            final(self).config == old(self).config,
            opt_view(final(self).reason) == old(self).details_after(contents@).reason,
            opt_view(final(self).user_id) == old(self).details_after(contents@).user_id,
            final(self).os == old(self).details_after(contents@).os,
            opt_view(final(self).version) == old(self).details_after(contents@).version,
    {
        let text = chars_of(contents);
        let lines = lines_of(&text);
        let ghost lv = lines@.map_values(|l: Vec<char>| l@);
        let ghost start = old(self).scan_start();
        let application = chars_of("Application");
        let user_marker = chars_of("user_id");
        let version_marker = chars_of("Version");
        let hash_marker = chars_of("app_hash");
        let build_marker = chars_of("build");
        let mut seen_reason = false;
        let mut seen_app = false;
        let mut seen_user = false;
        let mut seen_version = false;
        let mut seen_build = false;
        let mut i: usize = 0;
        while i < lines.len() && !(seen_reason && seen_app && seen_user && seen_version
            && seen_build)
            invariant
                i <= lines@.len(),
                lv == lines@.map_values(|l: Vec<char>| l@),
                lv == lines_spec(contents@),
                start == old(self).scan_start(),
                application@ == "Application"@,
                user_marker@ == "user_id"@,
                version_marker@ == "Version"@,
                hash_marker@ == "app_hash"@,
                build_marker@ == "build"@,
                self.day == old(self).day,
                self.time == old(self).time,
                self.files == old(self).files,
                self.config == old(self).config,
                (DetailsScan {
                    reason: opt_view(self.reason),
                    user_id: opt_view(self.user_id),
                    os: self.os,
                    version: opt_view(self.version),
                    seen_reason,
                    seen_app,
                    seen_user,
                    seen_version,
                    seen_build,
                }) == scan_lines(start, lv.take(i as int)),
            decreases lines@.len() - i,
        {
            let line = &lines[i];
            let ghost prev = scan_lines(start, lv.take(i as int));
            proof {
                assert(lv.take(i + 1).drop_last() =~= lv.take(i as int));
                assert(lv.take(i + 1).last() == line@);
                assert(scan_lines(start, lv.take(i + 1)) == scan_line(prev, i == 0, line@));
            }
            if i == 0 {
                self.reason = Some(string_from(line));
                seen_reason = true;
            } else if has_prefix(line, &application) {
                if !seen_app {
                    let lower = lowercase(string_from(line).as_str());
                    match EntryOS::from_application_line(lower.as_str()) {
                        Some(o) => self.os = Some(o),
                        None => {},
                    }
                    seen_app = true;
                }
            } else if has_prefix(line, &user_marker) {
                if !seen_user {
                    let words = words_of(line);
                    if words.len() > 1 {
                        proof {
                            assert(words@.map_values(|w: Vec<char>| w@)[1] == words@[1]@);
                        }
                        self.user_id = Some(string_from(&words[1]));
                    }
                    seen_user = true;
                }
            } else if has_prefix(line, &version_marker) || has_prefix(line, &hash_marker) {
                if !seen_version {
                    let words = words_of(line);
                    if words.len() > 1 {
                        proof {
                            assert(words@.map_values(|w: Vec<char>| w@)[1] == words@[1]@);
                        }
                        self.version = Some(string_from(&words[1]));
                    }
                    seen_version = true;
                }
            } else if has_prefix(line, &build_marker) {
                if !seen_build {
                    match rest_after(line, ' ') {
                        Some(b) => {
                            let build = string_from(&b);
                            let v = match &self.version {
                                Some(old_version) => {
                                    let mut joined = old_version.clone();
                                    joined.append(" (");
                                    joined.append(build.as_str());
                                    joined.append(")");
                                    joined
                                },
                                None => build,
                            };
                            self.version = Some(v);
                        },
                        None => {},
                    }
                    seen_build = true;
                }
            }
            i = i + 1;
        }
        proof {
            if i < lv.len() {
                lemma_scan_settled(start, lv, i as int);
            } else {
                assert(lv.take(i as int) =~= lv);
            }
        }
        self.checked_details = true;
    }

    /// A time-slot with nothing resolved yet; path separators are dropped
    /// from `day` and `time`.
    pub fn new(day: &str, time: &str, config: Arc<Config>) -> (r: Entry)
        ensures
            r.day@ == without(day@, seq!['/', '\\']),
            r.time@ == without(time@, seq!['/', '\\']),
            !r.checked_details,
            r.files is None,
            r.reason is None,
            r.user_id is None,
            r.os is None,
            r.version is None,
            r.config == config,
    {
        let seps = vec!['/', '\\'];
        proof {
            assert(seps@ =~= seq!['/', '\\']);
        }
        let d = remove_chars(&chars_of(day), &seps);
        let t = remove_chars(&chars_of(time), &seps);
        Entry {
            day: string_from(&d),
            time: string_from(&t),
            checked_details: false,
            files: None,
            reason: None,
            user_id: None,
            os: None,
            version: None,
            config,
        }
    }

    /// `day/time`, the entry's path below the archive root.
    pub fn date_time(&self) -> (r: String)
        ensures
            r@ == self.date_time_spec(),
    {
        join_path(self.day.as_str(), self.time.as_str())
    }

    /// The multi-line summary shown for an entry: user, reason, platform,
    /// version and location, with terminal colours.
    pub open spec fn description_spec(&self) -> Seq<char> {
        "\x1b[1m"@ + or_unknown(opt_view(self.user_id)) + "\x1b[0m: "@ + or_unknown(
            opt_view(self.reason),
        ) + "\n\tOS:       \x1b[32;1m"@ + os_or_unknown(self.os)
            + "\x1b[0m\n\tVersion:  \x1b[32;1m"@ + or_unknown(opt_view(self.version))
            + "\x1b[0m\n\tLocation: "@ + debug_of(self.date_time_spec()) + "\n"@
    }

    /// The one-line summary offered in a list of entries:
    /// `user (platform, on day at hh:mm:ss): reason`.
    pub open spec fn selectable_description_spec(&self) -> Seq<char> {
        or_unknown(opt_view(self.user_id)) + " ("@ + os_or_unknown(self.os) + ", on "@ + self.day@
            + " at "@ + self.time@.subrange(0, 2) + ":"@ + self.time@.subrange(2, 4) + ":"@
            + self.time@.subrange(4, self.time@.len() as int) + "): "@ + or_unknown(
            opt_view(self.reason),
        )
    }

    /// The multi-line summary of the entry.
    pub fn description(&self) -> (r: String)
        ensures
            r@ == self.description_spec(),
    {
        let mut out = "\x1b[1m".to_owned();
        out.append(text_or_unknown(&self.user_id).as_str());
        out.append("\x1b[0m: ");
        out.append(text_or_unknown(&self.reason).as_str());
        out.append("\n\tOS:       \x1b[32;1m");
        out.append(os_text(&self.os).as_str());
        out.append("\x1b[0m\n\tVersion:  \x1b[32;1m");
        out.append(text_or_unknown(&self.version).as_str());
        out.append("\x1b[0m\n\tLocation: ");
        let dt = self.date_time();
        out.append(debug_quoted(dt.as_str()).as_str());
        out.append("\n");
        out
    }

    /// The one-line summary of the entry. The time must have its six
    /// digits, or at least four characters.
    pub fn selectable_description(&self) -> (r: String)
        requires
            self.time@.len() >= 4,
        ensures
            r@ == self.selectable_description_spec(),
    {
        let t = self.time.as_str();
        let n = t.unicode_len();
        let mut out = text_or_unknown(&self.user_id);
        out.append(" (");
        out.append(os_text(&self.os).as_str());
        out.append(", on ");
        out.append(self.day.as_str());
        out.append(" at ");
        out.append(t.substring_char(0, 2));
        out.append(":");
        out.append(t.substring_char(2, 4));
        out.append(":");
        out.append(t.substring_char(4, n));
        out.append("): ");
        out.append(text_or_unknown(&self.reason).as_str());
        out
    }

    /// `day/time/details.log.gz`, the detail file's path below the local
    /// mirror's root.
    pub fn details_file(&self) -> (r: String)
        ensures
            r@ == join_spec(self.date_time_spec(), DETAILS@),
    {
        let dt = self.date_time();
        join_path(dt.as_str(), DETAILS)
    }

    /// Records the entry's file names, sorted.
    pub fn store_files(&mut self, names: Vec<String>)
        ensures
            final(self).files matches Some(f) && f@.map_values(|s: String| s@).to_multiset()
                == names@.map_values(|s: String| s@).to_multiset() && sorted_names(
                f@.map_values(|s: String| s@),
            ),
            final(self).day == old(self).day,
            final(self).time == old(self).time,
            final(self).checked_details == old(self).checked_details,
            final(self).reason == old(self).reason,
            final(self).user_id == old(self).user_id,
            final(self).os == old(self).os,
            final(self).version == old(self).version,
            final(self).config == old(self).config,
    {
        let mut sorted = names;
        sort_strings(&mut sorted);
        self.files = Some(sorted);
    }

    /// The entry's listed files whose text matches the term `term`, in
    /// order; `contents[i]` is the text of the `i`th listed file, or `None`
    /// where it could not be read. No files when none are listed;
    /// `BadRegexTerm` when the term is no valid pattern.
    pub fn files_containing_term(&self, term: &str, contents: &Vec<Option<String>>) -> (r: Result<
        Vec<String>,
        FilterErrors,
    >)
        requires
            self.files matches Some(f) ==> f@.len() == contents@.len(),
        ensures
            r is Err == !regex_compiles(term@),
            r matches Err(e) ==> e == FilterErrors::BadRegexTerm,
            r matches Ok(v) ==> strings_view(v@) == match self.files {
                Some(f) => selected(strings_view(f@), match_flags(term@, contents@)),
                None => Seq::empty(),
            },
    {
        match &self.files {
            Some(f) => matching_files(term, f, contents),
            None => {
                let none: Vec<String> = Vec::new();
                let r = matching_files(term, &none, &Vec::new());
                proof {
                    if r is Ok {
                        assert(strings_view(r->Ok_0@) =~= Seq::<Seq<char>>::empty());
                    }
                }
                r
            },
        }
    }

    /// Resolving the platform: a mirrored detail file is read first and
    /// settles it when read; else, with the file-name guess enabled, the
    /// files are listed if they are not yet (a failed listing ends the
    /// lookup) and the guess is made; then, while the platform is still
    /// unknown, the server's detail file is fetched.
    pub open spec fn os_lookup_spec(&self, has_local: bool, heuristic: bool, p: OsProgress) -> OsLookup {
        if has_local && p.local_read is None {
            OsLookup::ReadLocalDetails
        } else if p.local_read == Some(true) {
            OsLookup::Done
        } else if heuristic && self.files is None && p.listed is None {
            OsLookup::ListFiles
        } else if p.listed == Some(false) {
            OsLookup::Done
        } else if heuristic && !p.guessed {
            OsLookup::GuessFromFiles
        } else if self.os is None && !p.fetched {
            OsLookup::FetchDetails
        } else {
            OsLookup::Done
        }
    }

    /// The next lookup in resolving the entry's platform, given whether a
    /// detail file is mirrored, whether guessing from file names is
    /// enabled, and what has been tried.
    pub fn next_os_lookup(&self, has_local: bool, heuristic: bool, p: &OsProgress) -> (r: OsLookup)
        ensures
            r == self.os_lookup_spec(has_local, heuristic, *p),
    {
        if has_local && p.local_read.is_none() {
            OsLookup::ReadLocalDetails
        } else if p.local_read == Some(true) {
            OsLookup::Done
        } else if heuristic && self.files.is_none() && p.listed.is_none() {
            OsLookup::ListFiles
        } else if p.listed == Some(false) {
            OsLookup::Done
        } else if heuristic && !p.guessed {
            OsLookup::GuessFromFiles
        } else if self.os.is_none() && !p.fetched {
            OsLookup::FetchDetails
        } else {
            OsLookup::Done
        }
    }

    /// Guesses the platform from the listed file names: a console log means
    /// iOS, anything else leaves it unknown. Without a listing nothing
    /// changes.
    pub fn guess_os_from_files(&mut self)
        ensures
            final(self).day == old(self).day,
            final(self).time == old(self).time,
            final(self).checked_details == old(self).checked_details,
            final(self).files == old(self).files,
            final(self).reason == old(self).reason,
            final(self).user_id == old(self).user_id,
            final(self).version == old(self).version,
            final(self).config == old(self).config,
            final(self).os == match old(self).files {
                None => old(self).os,
                Some(f) => if names_console_log(f@) {
                    Some(EntryOS::iOS)
                } else {
                    None
                },
            },
    {
        let guess = match &self.files {
            None => return,
            Some(files) => {
                let prefix = chars_of("console");
                let mut found = false;
                let mut i: usize = 0;
                while i < files.len()
                    invariant
                        i <= files@.len(),
                        prefix@ == "console"@,
                        found == exists|j: int|
                            0 <= j < i && starts_with(#[trigger] files@[j]@, "console"@),
                    decreases files@.len() - i,
                {
                    if has_prefix(&chars_of(files[i].as_str()), &prefix) {
                        found = true;
                    }
                    i = i + 1;
                }
                found
            },
        };
        self.os = if guess {
            Some(EntryOS::iOS)
        } else {
            None
        };
    }
}

} // verus!
