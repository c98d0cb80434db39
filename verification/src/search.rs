//! Matching names against a search query.
//!
//! A query is a run of groups parted by white space; a name has to match
//! every group. A group is a run of options parted by `|` or `,`; a name
//! matches a group when it matches one of its options. An option that
//! begins with a dot matches a name that ends with it; any other option
//! matches a name that holds it. Capitals and small letters count as the
//! same. A handful of names that are only noise are never shown, whatever
//! the query.

use crate::scan::{is_space, is_space_char};
use crate::text::{
    chars_of, contains_chars, ends_with, equals_str, has_infix, has_suffix, push_range,
};
use vstd::prelude::*;

verus! {

/// What parts a text into runs.
#[derive(Clone, Copy, Debug, PartialEq, Eq, Structural)]
pub enum Separator {
    /// White space, which parts a query into groups.
    Space,
    /// `|` or `,`, which part a group into options.
    Choice,
}

/// Whether `c` is a separator of the given kind.
pub open spec fn separates(kind: Separator, c: char) -> bool {
    match kind {
        Separator::Space => is_space(c),
        Separator::Choice => c == '|' || c == ',',
    }
}

/// Whether `s[a..b]` is a run: not empty, free of separators, and not part
/// of a longer stretch that is free of them.
pub open spec fn is_run_at(s: Seq<char>, kind: Separator, a: int, b: int) -> bool {
    &&& 0 <= a < b <= s.len()
    &&& forall|i: int| a <= i < b ==> !separates(kind, #[trigger] s[i])
    &&& a == 0 || separates(kind, s[a - 1])
    &&& b == s.len() || separates(kind, s[b])
}

/// Whether a name, in small letters, matches one option of a query.
pub open spec fn option_matches(name: Seq<char>, option: Seq<char>) -> bool {
    option.len() > 0 && if option[0] == '.' {
        has_suffix(name, option)
    } else {
        has_infix(name, option)
    }
}

/// Whether a name, in small letters, matches one of the options of a group.
pub open spec fn group_matches(name: Seq<char>, group: Seq<char>) -> bool {
    exists|a: int, b: int|
        is_run_at(group, Separator::Choice, a, b) && option_matches(
            name,
            #[trigger] group.subrange(a, b),
        )
}

/// Whether a name matches every group of a query, both in small letters.
pub open spec fn matches_lowered_spec(name: Seq<char>, query: Seq<char>) -> bool {
    forall|a: int, b: int|
        is_run_at(query, Separator::Space, a, b) ==> group_matches(
            name,
            #[trigger] query.subrange(a, b),
        )
}

/// The names that no search ever shows.
pub open spec fn is_noise_name(name: Seq<char>) -> bool {
    ||| name == ".git"@
    ||| name == "node_modules"@
    ||| name == "target"@
    ||| name == "dist"@
    ||| name == ".DS_Store"@
}

/// `s` with its letters made small, as `str::to_lowercase` does it.
pub uninterp spec fn lowercase_of(s: Seq<char>) -> Seq<char>;

/// Whether a search for `query` shows the entry `name`.
///
/// A noise name is never shown, whatever the query. Any other name is
/// shown by the empty query, and by any other query when, in small
/// letters, it matches every group of the query in small letters.
pub open spec fn matches_query_spec(name: Seq<char>, query: Seq<char>) -> bool {
    !is_noise_name(name) && (query.len() == 0 || matches_lowered_spec(
        lowercase_of(name),
        lowercase_of(query),
    ))
}

/// No query shows a noise name.
pub proof fn lemma_noise_is_never_shown(name: Seq<char>, query: Seq<char>)
    requires
        is_noise_name(name),
    ensures
        !matches_query_spec(name, query),
{
}

/// Makes the letters of `s` small.
///
/// Wraps `str::to_lowercase`, which maps the text after the Unicode rules
/// for lower case, the same on every machine. The contract only gives the
/// result its name.
#[verifier::external_body]
pub(crate) fn to_lowercase(s: &str) -> (r: String)
    ensures
        r@ == lowercase_of(s@),
{
    s.to_lowercase()
}

/// Whether `c` is a separator of the given kind.
pub fn is_separator(kind: Separator, c: char) -> (r: bool)
    ensures
        r == separates(kind, c),
{
    match kind {
        Separator::Space => is_space_char(c),
        Separator::Choice => c == '|' || c == ',',
    }
}

/// The first run of `v` that begins at `from` or later, as its bounds;
/// `(v.len(), v.len())` when there is none. `from` is a place between
/// runs.
fn next_run(v: &Vec<char>, kind: Separator, from: usize) -> (r: (usize, usize))
    requires
        from <= v.len(),
        from == 0 || from == v.len() || separates(kind, v@[from as int]),
    ensures
        from <= r.0 <= r.1 <= v.len(),
        forall|i: int| from <= i < r.0 ==> separates(kind, #[trigger] v@[i]),
        r.0 < v.len() ==> is_run_at(v@, kind, r.0 as int, r.1 as int),
        r.0 == v.len() ==> r.1 == v.len(),
        r.1 == v.len() || separates(kind, v@[r.1 as int]),
{
    let mut a: usize = from;
    while a < v.len() && is_separator(kind, v[a])
        invariant
            from <= a <= v.len(),
            forall|i: int| from <= i < a ==> separates(kind, #[trigger] v@[i]),
        decreases v.len() - a,
    {
        a += 1;
    }
    if a == v.len() {
        return (a, a);
    }
    let mut b: usize = a + 1;
    while b < v.len() && !is_separator(kind, v[b])
        invariant
            a < b <= v.len(),
            forall|i: int| a <= i < b ==> !separates(kind, #[trigger] v@[i]),
        decreases v.len() - b,
    {
        b += 1;
    }
    (a, b)
}

/// A run that ends after `from`, where `from` is a place between runs,
/// begins at `from` or later.
proof fn lemma_run_after(s: Seq<char>, kind: Separator, from: int, x: int, y: int)
    requires
        0 <= from <= s.len(),
        from == 0 || from == s.len() || separates(kind, s[from]),
        is_run_at(s, kind, x, y),
        y > from,
    ensures
        x >= from,
{
    if x < from {
        assert(!separates(kind, s[from]));
    }
}

/// Between a place between runs and the first run after it, no other run
/// ends; and the first run is the only one that begins where it begins.
proof fn lemma_first_run(s: Seq<char>, kind: Separator, from: int, a: int, b: int, x: int, y: int)
    requires
        0 <= from <= a <= b <= s.len(),
        from == 0 || from == s.len() || separates(kind, s[from]),
        forall|i: int| from <= i < a ==> separates(kind, #[trigger] s[i]),
        a < s.len() ==> is_run_at(s, kind, a, b),
        a == s.len() ==> b == s.len(),
        is_run_at(s, kind, x, y),
        from < y <= b || (a == s.len() && y > from),
    ensures
        x == a,
        y == b,
        a < s.len(),
{
    lemma_run_after(s, kind, from, x, y);
    if x < a {
        assert(separates(kind, s[x]));
    }
    if a < s.len() {
        if x > a {
            assert(!separates(kind, s[x - 1]));
        }
        if y < b {
            assert(!separates(kind, s[y]));
        }
    }
}

/// Whether a name, in small letters, matches the option `option`.
pub fn matches_option(name: &Vec<char>, option: &Vec<char>) -> (r: bool)
    ensures
        r == option_matches(name@, option@),
{
    if option.len() == 0 {
        false
    } else if option[0] == '.' {
        ends_with(name, option)
    } else {
        contains_chars(name, option)
    }
}

/// Whether a name, in small letters, matches one of the options of `group`.
pub fn matches_group(name: &Vec<char>, group: &Vec<char>) -> (r: bool)
    ensures
        r == group_matches(name@, group@),
{
    let mut pos: usize = 0;
    while pos < group.len()
        invariant
            pos <= group.len(),
            pos == 0 || pos == group.len() || separates(Separator::Choice, group@[pos as int]),
            forall|x: int, y: int|
                is_run_at(group@, Separator::Choice, x, y) && y <= pos ==> !option_matches(
                    name@,
                    #[trigger] group@.subrange(x, y),
                ),
        decreases group.len() - pos,
    {
        let (a, b) = next_run(group, Separator::Choice, pos);
        if a < group.len() {
            let mut option: Vec<char> = Vec::new();
            push_range(&mut option, group, a, b);
            proof {
                assert(option@ =~= group@.subrange(a as int, b as int));
            }
            if matches_option(name, &option) {
                return true;
            }
        }
        proof {
            assert forall|x: int, y: int|
                is_run_at(group@, Separator::Choice, x, y) && y <= b implies !option_matches(
                name@,
                #[trigger] group@.subrange(x, y),
            ) by {
                if y > pos {
                    let at = pos as int;
                    lemma_first_run(group@, Separator::Choice, at, a as int, b as int, x, y);
                }
            }
        }
        pos = b;
    }
    false
}

/// Whether a name matches every group of a query, both already in small
/// letters.
pub fn matches_lowered(name: &str, query: &str) -> (r: bool)
    ensures
        r == matches_lowered_spec(name@, query@),
{
    let name_chars = chars_of(name);
    let q = chars_of(query);
    let mut pos: usize = 0;
    while pos < q.len()
        invariant
            pos <= q.len(),
            q@ == query@,
            name_chars@ == name@,
            pos == 0 || pos == q.len() || separates(Separator::Space, q@[pos as int]),
            forall|x: int, y: int|
                is_run_at(q@, Separator::Space, x, y) && y <= pos ==> group_matches(
                    name@,
                    #[trigger] q@.subrange(x, y),
                ),
        decreases q.len() - pos,
    {
        let (a, b) = next_run(&q, Separator::Space, pos);
        if a < q.len() {
            let mut group: Vec<char> = Vec::new();
            push_range(&mut group, &q, a, b);
            proof {
                assert(group@ =~= q@.subrange(a as int, b as int));
            }
            if !matches_group(&name_chars, &group) {
                return false;
            }
        }
        proof {
            assert forall|x: int, y: int|
                is_run_at(q@, Separator::Space, x, y) && y <= b implies group_matches(
                name@,
                #[trigger] q@.subrange(x, y),
            ) by {
                if y > pos {
                    lemma_first_run(q@, Separator::Space, pos as int, a as int, b as int, x, y);
                }
            }
        }
        pos = b;
    }
    true
}

/// Whether `name` is one of the names that no search ever shows.
pub fn is_noise(name: &str) -> (r: bool)
    ensures
        r == is_noise_name(name@),
{
    let v = chars_of(name);
    equals_str(&v, ".git") || equals_str(&v, "node_modules") || equals_str(&v, "target")
        || equals_str(&v, "dist") || equals_str(&v, ".DS_Store")
}

/// Whether a search for `query` shows the entry `name`.
pub fn matches_query(name: &str, query: &str) -> (r: bool)
    ensures
        r == matches_query_spec(name@, query@),
{
    if is_noise(name) {
        return false;
    }
    if query.is_empty() {
        return true;
    }
    let name_lower = to_lowercase(name);
    let query_lower = to_lowercase(query);
    matches_lowered(name_lower.as_str(), query_lower.as_str())
}

/// Whether no character of `s` is a separator of the given kind.
pub open spec fn free_of(s: Seq<char>, kind: Separator) -> bool {
    forall|i: int| 0 <= i < s.len() ==> !separates(kind, #[trigger] s[i])
}

/// A text without separators is one run, if it is not empty.
pub proof fn lemma_one_run(s: Seq<char>, kind: Separator, a: int, b: int)
    requires
        s.len() > 0,
        free_of(s, kind),
    ensures
        is_run_at(s, kind, a, b) <==> (a == 0 && b == s.len()),
{
    if is_run_at(s, kind, a, b) {
        if a > 0 {
            assert(!separates(kind, s[a - 1]));
        }
        if b < s.len() {
            assert(!separates(kind, s[b]));
        }
    }
}

/// Two texts without separators, joined by one separator, are two runs.
pub proof fn lemma_two_runs(x: Seq<char>, c: char, y: Seq<char>, kind: Separator, a: int, b: int)
    requires
        x.len() > 0,
        y.len() > 0,
        free_of(x, kind),
        free_of(y, kind),
        separates(kind, c),
    ensures
        is_run_at(x + seq![c] + y, kind, a, b) <==> ((a == 0 && b == x.len()) || (a == x.len() + 1
            && b == x.len() + 1 + y.len())),
{
    let s = x + seq![c] + y;
    assert(s.len() == x.len() + 1 + y.len());
    assert(s[x.len() as int] == c);
    assert forall|i: int| 0 <= i < x.len() implies !separates(kind, #[trigger] s[i]) by {
        assert(s[i] == x[i]);
    }
    assert forall|i: int| x.len() < i < s.len() implies !separates(kind, #[trigger] s[i]) by {
        assert(s[i] == y[i - x.len() - 1]);
    }
    if is_run_at(s, kind, a, b) {
        if a <= x.len() && x.len() < b {
            assert(!separates(kind, s[x.len() as int]));
        }
        if a > 0 && a != x.len() + 1 {
            assert(separates(kind, s[a - 1]));
        }
        if b < s.len() && b != x.len() {
            assert(separates(kind, s[b]));
        }
    }
}

/// An option without separators is a group of its own.
pub proof fn lemma_single_option(name: Seq<char>, option: Seq<char>)
    requires
        option.len() > 0,
        free_of(option, Separator::Choice),
    ensures
        group_matches(name, option) <==> option_matches(name, option),
{
    assert(option.subrange(0, option.len() as int) =~= option);
    if group_matches(name, option) {
        let (a, b) = choose|a: int, b: int|
            is_run_at(option, Separator::Choice, a, b) && option_matches(
                name,
                #[trigger] option.subrange(a, b),
            );
        lemma_one_run(option, Separator::Choice, a, b);
    }
    if option_matches(name, option) {
        lemma_one_run(option, Separator::Choice, 0, option.len() as int);
        assert(is_run_at(option, Separator::Choice, 0, option.len() as int) && option_matches(
            name,
            option.subrange(0, option.len() as int),
        ));
    }
}

/// A name matches a group of two options when it matches one of them.
pub proof fn lemma_either_option(name: Seq<char>, first: Seq<char>, c: char, second: Seq<char>)
    requires
        first.len() > 0,
        second.len() > 0,
        free_of(first, Separator::Choice),
        free_of(second, Separator::Choice),
        c == '|' || c == ',',
    ensures
        group_matches(name, first + seq![c] + second) <==> (option_matches(name, first)
            || option_matches(name, second)),
{
    let group = first + seq![c] + second;
    let n = first.len() as int;
    let m = group.len() as int;
    assert(group.subrange(0, n) =~= first);
    assert(group.subrange(n + 1, m) =~= second);
    if group_matches(name, group) {
        let (a, b) = choose|a: int, b: int|
            is_run_at(group, Separator::Choice, a, b) && option_matches(
                name,
                #[trigger] group.subrange(a, b),
            );
        lemma_two_runs(first, c, second, Separator::Choice, a, b);
    }
    if option_matches(name, first) {
        lemma_two_runs(first, c, second, Separator::Choice, 0, n);
        assert(is_run_at(group, Separator::Choice, 0, n) && option_matches(
            name,
            group.subrange(0, n),
        ));
    }
    if option_matches(name, second) {
        lemma_two_runs(first, c, second, Separator::Choice, n + 1, m);
        assert(is_run_at(group, Separator::Choice, n + 1, m) && option_matches(
            name,
            group.subrange(n + 1, m),
        ));
    }
}

/// A query without white space is one group.
pub proof fn lemma_single_group(name: Seq<char>, group: Seq<char>)
    requires
        group.len() > 0,
        free_of(group, Separator::Space),
    ensures
        matches_lowered_spec(name, group) <==> group_matches(name, group),
{
    let n = group.len() as int;
    assert(group.subrange(0, n) =~= group);
    lemma_one_run(group, Separator::Space, 0, n);
    if group_matches(name, group) {
        assert forall|a: int, b: int|
            is_run_at(group, Separator::Space, a, b) implies group_matches(
            name,
            #[trigger] group.subrange(a, b),
        ) by {
            lemma_one_run(group, Separator::Space, a, b);
        }
    }
    if matches_lowered_spec(name, group) {
        assert(group_matches(name, group.subrange(0, n)));
    }
}

/// A name matches a query of two groups when it matches both of them.
pub proof fn lemma_both_groups(name: Seq<char>, first: Seq<char>, c: char, second: Seq<char>)
    requires
        first.len() > 0,
        second.len() > 0,
        free_of(first, Separator::Space),
        free_of(second, Separator::Space),
        is_space(c),
    ensures
        matches_lowered_spec(name, first + seq![c] + second) <==> (group_matches(name, first)
            && group_matches(name, second)),
{
    let query = first + seq![c] + second;
    let n = first.len() as int;
    let m = query.len() as int;
    assert(query.subrange(0, n) =~= first);
    assert(query.subrange(n + 1, m) =~= second);
    lemma_two_runs(first, c, second, Separator::Space, 0, n);
    lemma_two_runs(first, c, second, Separator::Space, n + 1, m);
    if group_matches(name, first) && group_matches(name, second) {
        assert forall|a: int, b: int|
            is_run_at(query, Separator::Space, a, b) implies group_matches(
            name,
            #[trigger] query.subrange(a, b),
        ) by {
            lemma_two_runs(first, c, second, Separator::Space, a, b);
        }
    }
    if matches_lowered_spec(name, query) {
        assert(group_matches(name, query.subrange(0, n)));
        assert(group_matches(name, query.subrange(n + 1, m)));
    }
}

/// The three plainest queries, for a name in small letters: two words
/// parted by a blank ask for both, two words parted by a bar ask for one
/// of them, and a word with a dot in front asks for the end of the name.
pub proof fn lemma_plain_queries(name: Seq<char>, first: Seq<char>, second: Seq<char>)
    requires
        first.len() > 0,
        second.len() > 0,
        free_of(first, Separator::Space),
        free_of(first, Separator::Choice),
        free_of(second, Separator::Space),
        free_of(second, Separator::Choice),
    ensures
        matches_lowered_spec(name, first + seq![' '] + second) <==> (option_matches(name, first)
            && option_matches(name, second)),
        matches_lowered_spec(name, first + seq!['|'] + second) <==> (option_matches(name, first)
            || option_matches(name, second)),
        matches_lowered_spec(name, first) <==> option_matches(name, first),
        first[0] == '.' ==> (matches_lowered_spec(name, first) <==> has_suffix(name, first)),
        first[0] != '.' ==> (matches_lowered_spec(name, first) <==> has_infix(name, first)),
{
    lemma_both_groups(name, first, ' ', second);
    lemma_single_option(name, first);
    lemma_single_option(name, second);
    lemma_single_group(name, first);
    let either = first + seq!['|'] + second;
    assert forall|i: int| 0 <= i < either.len() implies !separates(
        Separator::Space,
        #[trigger] either[i],
    ) by {
        if i < first.len() {
            assert(either[i] == first[i]);
        } else if i > first.len() {
            assert(either[i] == second[i - first.len() - 1]);
        }
    }
    lemma_single_group(name, either);
    lemma_either_option(name, first, '|', second);
}

} // verus!
