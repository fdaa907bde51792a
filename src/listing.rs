//! Parsing of the archive server's directory-listing pages.

use vstd::prelude::*;
use crate::text::{chars_of, remove_chars, split_chars, split_spec, string_from, without};

verus! {

/// `name` without one trailing `/`.
pub open spec fn trim_slash(name: Seq<char>) -> Seq<char> {
    if name.len() > 0 && name.last() == '/' {
        name.drop_last()
    } else {
        name
    }
}

/// The name an anchor line refers to: the third piece of the line split at
/// `<` and `>` with one trailing `/` trimmed, when there is such a piece and
/// the name is not empty.
pub open spec fn link_of_line(line: Seq<char>) -> Option<Seq<char>> {
    let parts = split_spec(line, seq!['<', '>']);
    if parts.len() > 2 && trim_slash(parts[2]).len() > 0 {
        Some(trim_slash(parts[2]))
    } else {
        None
    }
}

/// The links of the given lines, in order.
pub open spec fn links_in(lines: Seq<Seq<char>>) -> Seq<Seq<char>>
    decreases lines.len(),
{
    if lines.len() == 0 {
        Seq::empty()
    } else {
        let prev = links_in(lines.drop_last());
        match link_of_line(lines.last()) {
            Some(l) => prev.push(l),
            None => prev,
        }
    }
}

/// The child names that a listing page refers to, one per line at most.
pub open spec fn links_of(page: Seq<char>) -> Seq<Seq<char>> {
    links_in(split_spec(page, seq!['\n']))
}

/// The child names referenced by the anchor tags of a listing page, in
/// order, each without a trailing `/`, empty names left out. Never fails:
/// a page without anchors gives no names.
pub fn get_links(output: &str) -> (r: Vec<String>)
    ensures
        r@.map_values(|s: String| s@) == links_of(output@),
{
    let page = chars_of(output);
    let newline = vec!['\n'];
    let angles = vec!['<', '>'];
    proof {
        assert(newline@ =~= seq!['\n']);
        assert(angles@ =~= seq!['<', '>']);
    }
    let lines = split_chars(&page, &newline);
    let ghost lines_v = lines@.map_values(|p: Vec<char>| p@);
    let mut out: Vec<String> = Vec::new();
    let mut i: usize = 0;
    while i < lines.len()
        invariant
            i <= lines@.len(),
            lines_v == lines@.map_values(|p: Vec<char>| p@),
            angles@ == seq!['<', '>'],
            out@.map_values(|s: String| s@) == links_in(lines_v.take(i as int)),
        decreases lines@.len() - i,
    {
        let parts = split_chars(&lines[i], &angles);
        proof {
            assert(lines_v.take(i + 1).drop_last() =~= lines_v.take(i as int));
            assert(lines_v.take(i + 1).last() == lines@[i as int]@);
        }
        let ghost before = out@.map_values(|s: String| s@);
        if parts.len() > 2 {
            let mut name = parts[2].clone();
            let n = name.len();
            if n > 0 && name[n - 1] == '/' {
                name.pop();
            }
            proof {
                assert(name@ =~= trim_slash(parts@[2]@));
            }
            if name.len() > 0 {
                out.push(string_from(&name));
                proof {
                    assert(out@.map_values(|s: String| s@) =~= before.push(name@));
                }
            }
        }
        i = i + 1;
    }
    proof {
        assert(lines_v.take(lines_v.len() as int) =~= lines_v);
    }
    out
}

/// The file names that an entry's listing page names, slashes dropped.
pub open spec fn file_names_of(page: Seq<char>) -> Seq<Seq<char>> {
    links_of(page).map_values(|l: Seq<char>| without(l, seq!['/']))
}

/// The file names that an entry's listing page names, in page order, with
/// any slashes dropped.
pub fn listed_file_names(page: &str) -> (r: Vec<String>)
    ensures
        r@.map_values(|s: String| s@) == file_names_of(page@),
{
    let links = get_links(page);
    let ghost lv = links@.map_values(|s: String| s@);
    let slash = vec!['/'];
    proof {
        assert(slash@ =~= seq!['/']);
    }
    let mut out: Vec<String> = Vec::new();
    let mut i: usize = 0;
    while i < links.len()
        invariant
            i <= links@.len(),
            slash@ == seq!['/'],
            lv == links@.map_values(|s: String| s@),
            lv == links_of(page@),
            out@.map_values(|s: String| s@) == lv.take(i as int).map_values(
                |l: Seq<char>| without(l, seq!['/']),
            ),
        decreases links@.len() - i,
    {
        let name = remove_chars(&chars_of(links[i].as_str()), &slash);
        let ghost before = out@.map_values(|s: String| s@);
        out.push(string_from(&name));
        proof {
            assert(out@.map_values(|s: String| s@) =~= before.push(without(lv[i as int], seq!['/'])));
            assert(lv.take(i + 1).map_values(|l: Seq<char>| without(l, seq!['/'])) =~= lv.take(
                i as int,
            ).map_values(|l: Seq<char>| without(l, seq!['/'])).push(without(lv[i as int], seq!['/'])));
        }
        i = i + 1;
    }
    proof {
        assert(lv.take(lv.len() as int) =~= lv);
    }
    out
}

} // verus!
