//! The content-term predicate: which downloaded files match a pattern.

use vstd::prelude::*;
use crate::errors::FilterErrors;
use crate::sync::strings_view;

verus! {

#[verifier::external_type_specification]
#[verifier::external_body]
pub struct ExRegex(regex::Regex);

/// Whether `regex::Regex::new` accepts the pattern (valid syntax, within
/// the default size limit).
pub uninterp spec fn regex_compiles(pattern: Seq<char>) -> bool;

/// Whether the regex compiled from `pattern` matches somewhere in `text`.
pub uninterp spec fn regex_finds(pattern: Seq<char>, text: Seq<char>) -> bool;

/// A compiled term, with the text it was compiled from. Only `compile`
/// makes one, so the two always belong together.
pub(crate) struct TermMatcher {
    pattern: String,
    re: regex::Regex,
}

impl TermMatcher {
    /// The text the term was compiled from.
    pub(crate) closed spec fn pattern(&self) -> Seq<char> {
        self.pattern@
    }

    /// Relies on `regex::Regex::new`: it fails exactly on the patterns that
    /// it cannot compile.
    #[verifier::external_body]
    pub(crate) fn compile(term: &str) -> (r: Option<TermMatcher>)
        ensures
            r is Some == regex_compiles(term@),
            r matches Some(m) ==> m.pattern() == term@,
    {
        regex::Regex::new(term).ok().map(|re| TermMatcher { pattern: term.to_owned(), re })
    }

    /// Relies on `regex::Regex::is_match`: whether the pattern matches
    /// anywhere in `text`.
    #[verifier::external_body]
    pub(crate) fn is_match(&self, text: &str) -> (r: bool)
        ensures
            r == regex_finds(self.pattern(), text@),
    {
        self.re.is_match(text)
    }
}

/// The names in `files` whose flag in `keep` is set, in order.
pub open spec fn selected(files: Seq<Seq<char>>, keep: Seq<bool>) -> Seq<Seq<char>>
    decreases files.len(),
{
    if files.len() == 0 || keep.len() == 0 {
        Seq::empty()
    } else {
        let prev = selected(files.drop_last(), keep.drop_last());
        if keep.last() {
            prev.push(files.last())
        } else {
            prev
        }
    }
}

/// Whether the text of each file, where it could be read, matches `pattern`.
pub open spec fn match_flags(pattern: Seq<char>, contents: Seq<Option<String>>) -> Seq<bool> {
    contents.map_values(
        |c: Option<String>|
            match c {
                Some(t) => regex_finds(pattern, t@),
                None => false,
            },
    )
}

/// The names in `files` whose flag in `keep` is set, in order.
pub fn select_files(files: &Vec<String>, keep: &Vec<bool>) -> (r: Vec<String>)
    requires
        files@.len() == keep@.len(),
    ensures
        strings_view(r@) == selected(strings_view(files@), keep@),
{
    let mut out: Vec<String> = Vec::new();
    let mut i: usize = 0;
    while i < files.len()
        invariant
            i <= files@.len(),
            files@.len() == keep@.len(),
            strings_view(out@) == selected(strings_view(files@).take(i as int), keep@.take(i as int)),
        decreases files@.len() - i,
    {
        proof {
            assert(strings_view(files@).take(i + 1).drop_last() =~= strings_view(files@).take(
                i as int,
            ));
            assert(keep@.take(i + 1).drop_last() =~= keep@.take(i as int));
            assert(strings_view(files@).take(i + 1).last() == files@[i as int]@);
            assert(keep@.take(i + 1).last() == keep@[i as int]);
        }
        if keep[i] {
            let ghost before = strings_view(out@);
            out.push(files[i].clone());
            proof {
                assert(strings_view(out@) =~= before.push(files@[i as int]@));
            }
        }
        i = i + 1;
    }
    proof {
        assert(strings_view(files@).take(files@.len() as int) =~= strings_view(files@));
        assert(keep@.take(keep@.len() as int) =~= keep@);
    }
    out
}

/// The files among `files` whose text matches the term `term`, in order;
/// `contents[i]` is the text of `files[i]`, or `None` where it could not be
/// read, which counts as no match. `BadRegexTerm` when the term is no
/// valid pattern.
pub fn matching_files(term: &str, files: &Vec<String>, contents: &Vec<Option<String>>) -> (r:
    Result<Vec<String>, FilterErrors>)
    requires
        files@.len() == contents@.len(),
    ensures
        r is Err == !regex_compiles(term@),
        r matches Err(e) ==> e == FilterErrors::BadRegexTerm,
        r matches Ok(v) ==> strings_view(v@) == selected(
            strings_view(files@),
            match_flags(term@, contents@),
        ),
{
    let m = match TermMatcher::compile(term) {
        Some(m) => m,
        None => return Err(FilterErrors::BadRegexTerm),
    };
    let mut flags: Vec<bool> = Vec::new();
    let mut i: usize = 0;
    while i < contents.len()
        invariant
            i <= contents@.len(),
            m.pattern() == term@,
            flags@ == match_flags(term@, contents@).take(i as int),
        decreases contents@.len() - i,
    {
        let hit = match &contents[i] {
            Some(t) => m.is_match(t.as_str()),
            None => false,
        };
        flags.push(hit);
        proof {
            assert(flags@ =~= match_flags(term@, contents@).take(i + 1));
        }
        i = i + 1;
    }
    proof {
        assert(flags@ =~= match_flags(term@, contents@));
    }
    Ok(select_files(files, &flags))
}

} // verus!
