//! Folders used of late, as the desktop remembers them.
//!
//! On Linux the desktop keeps a list of recently used files, one bookmark
//! to a line, each with the address of the file and the time it was added.
//! This module reads the path out of such a line; whether the path is a
//! folder that still exists is for the caller to find out.

use crate::models::RecentFolder;
use crate::text::{
    chars_of, find_char, find_char_from, lemma_find_char, occurs_at, occurs_at_exec, string_of,
};
use vstd::prelude::*;

verus! {

/// The most folders that are offered.
pub const RECENT_LIMIT: usize = 15;

/// Where `p` occurs first in `s` at `from` or later, or `s.len()` when it
/// does not.
pub open spec fn first_occurrence(s: Seq<char>, p: Seq<char>, from: int) -> int
    decreases s.len() - from,
{
    if from < 0 || from >= s.len() || from + p.len() > s.len() {
        s.len() as int
    } else if occurs_at(s, p, from) {
        from
    } else {
        first_occurrence(s, p, from + 1)
    }
}

/// The three characters that stand for a blank in an address.
pub open spec fn blank_mark() -> Seq<char> {
    seq!['%', '2', '0']
}

/// `s` with every `%20` replaced by a blank, from left to right.
pub open spec fn unescape_blanks(s: Seq<char>) -> Seq<char>
    decreases s.len(),
{
    if s.len() == 0 {
        s
    } else if occurs_at(s, blank_mark(), 0) {
        seq![' '] + unescape_blanks(s.skip(3))
    } else {
        seq![s[0]] + unescape_blanks(s.drop_first())
    }
}

/// The mark that stands before the path in a bookmark.
pub open spec fn address_mark() -> Seq<char> {
    "href=\"file://"@
}

/// The mark of the time at which a bookmark was added.
pub open spec fn added_mark() -> Seq<char> {
    "added=\""@
}

/// The path that a line of the list of recently used files names.
///
/// The line has to hold the address of a local file and the time at which
/// it was added. The path is what stands between the mark of the address
/// and the next quotation mark, with `%20` read as a blank. A line without
/// one of the marks, or without the closing quotation mark, names nothing.
pub open spec fn recent_path_spec(line: Seq<char>) -> Option<Seq<char>> {
    let at = first_occurrence(line, address_mark(), 0);
    let has_added = first_occurrence(line, added_mark(), 0) < line.len();
    if at < line.len() && has_added {
        let rest = line.skip(at + address_mark().len());
        let end = find_char(rest, '"');
        if end < rest.len() {
            Some(unescape_blanks(rest.take(end)))
        } else {
            None
        }
    } else {
        None
    }
}

/// Where `p` occurs first in `v` at `from` or later, or `v.len()`.
pub fn find_first(v: &Vec<char>, p: &Vec<char>, from: usize) -> (at: usize)
    requires
        from <= v.len(),
    ensures
        at == first_occurrence(v@, p@, from as int),
        at <= v.len(),
        at < v.len() ==> occurs_at(v@, p@, at as int),
{
    let mut i: usize = from;
    while i < v.len() && p.len() <= v.len() - i
        invariant
            from <= i <= v.len(),
            first_occurrence(v@, p@, from as int) == first_occurrence(v@, p@, i as int),
        decreases v.len() - i,
    {
        if occurs_at_exec(v, p, i) {
            return i;
        }
        i += 1;
    }
    v.len()
}

/// `v[from..to]` with every `%20` replaced by a blank.
fn unescape_range(v: &Vec<char>, from: usize, to: usize) -> (out: Vec<char>)
    requires
        from <= to <= v.len(),
    ensures
        out@ == unescape_blanks(v@.subrange(from as int, to as int)),
{
    let ghost s = v@.subrange(from as int, to as int);
    let mark = chars_of("%20");
    proof {
        reveal_strlit("%20");
        assert(mark@ =~= blank_mark());
    }
    let mut out: Vec<char> = Vec::new();
    let mut i: usize = from;
    proof {
        assert(s.skip(0) =~= s);
    }
    while i < to
        invariant
            from <= i <= to <= v.len(),
            s == v@.subrange(from as int, to as int),
            mark@ == blank_mark(),
            out@ + unescape_blanks(s.skip(i - from)) == unescape_blanks(s),
        decreases to - i,
    {
        let ghost rest = s.skip(i - from);
        let is_mark = to - i >= 3 && occurs_at_exec(v, &mark, i);
        proof {
            if to - i >= 3 {
                assert(rest.subrange(0, 3) =~= v@.subrange(i as int, i + 3));
            }
            assert(is_mark == occurs_at(rest, blank_mark(), 0));
        }
        if is_mark {
            out.push(' ');
            proof {
                assert(rest.skip(3) =~= s.skip(i - from + 3));
                assert(out@ + unescape_blanks(s.skip(i - from + 3)) =~= unescape_blanks(s));
            }
            i += 3;
        } else {
            out.push(v[i]);
            proof {
                assert(rest[0] == v@[i as int]);
                assert(rest.drop_first() =~= s.skip(i - from + 1));
                assert(out@ + unescape_blanks(s.skip(i - from + 1)) =~= unescape_blanks(s));
            }
            i += 1;
        }
    }
    proof {
        assert(s.skip(to - from) =~= Seq::<char>::empty());
        assert(out@ + Seq::<char>::empty() =~= out@);
    }
    out
}

/// The path that a line of the list of recently used files names.
pub fn recent_path_in_line(line: &str) -> (r: Option<String>)
    ensures
        match r {
            Some(path) => recent_path_spec(line@) == Some(path@),
            None => recent_path_spec(line@) is None,
        },
{
    let v = chars_of(line);
    let address = chars_of("href=\"file://");
    let added = chars_of("added=\"");
    proof {
        reveal_strlit("href=\"file://");
    }
    let at = find_first(&v, &address, 0);
    let added_at = find_first(&v, &added, 0);
    if at >= v.len() || added_at >= v.len() {
        return None;
    }
    let start = at + address.len();
    let end = find_char_from(&v, start, '"');
    proof {
        lemma_find_char(v@.skip(start as int), '"');
        assert(v@.skip(start as int).take(end - start) =~= v@.subrange(start as int, end as int));
    }
    if end >= v.len() {
        return None;
    }
    let path = unescape_range(&v, start, end);
    Some(string_of(&path))
}

/// The folders offered when the desktop remembers none, by name.
pub fn common_folders() -> (names: Vec<String>)
    ensures
        names.len() == 5,
        names[0]@ == "Downloads"@,
        names[1]@ == "Documents"@,
        names[2]@ == "Pictures"@,
        names[3]@ == "Videos"@,
        names[4]@ == "Desktop"@,
{
    let mut names: Vec<String> = Vec::new();
    names.push(string_of(&chars_of("Downloads")));
    names.push(string_of(&chars_of("Documents")));
    names.push(string_of(&chars_of("Pictures")));
    names.push(string_of(&chars_of("Videos")));
    names.push(string_of(&chars_of("Desktop")));
    names
}

/// A recent folder of the given path, shown under `name`, or under the
/// path itself when it has no name.
pub fn recent_folder(name: Option<String>, path: String) -> (r: RecentFolder)
    ensures
        r.path@ == path@,
        r.name@ == match name {
            Some(n) => n@,
            None => path@,
        },
{
    let name = match name {
        Some(n) => n,
        None => path.clone(),
    };
    RecentFolder { name, path }
}

} // verus!
