//! Remote paths: turning what a user typed into an absolute path, and
//! moving between a directory and its entries.

use crate::text::{
    after_last_char, chars_of, find_char, find_char_from, has_prefix, lemma_find_char, push_range,
    push_str_chars, starts_with, string_of, string_of_range, strip_leading, strip_trailing,
};
use vstd::prelude::*;

verus! {

/// Length of the URL scheme prefix that `path` starts with (`http://`,
/// `https://` or `ftp://`), or `0` when it starts with none of them.
pub open spec fn scheme_len(path: Seq<char>) -> int {
    if has_prefix(path, "http://"@) {
        7
    } else if has_prefix(path, "https://"@) {
        8
    } else if has_prefix(path, "ftp://"@) {
        6
    } else {
        0
    }
}

/// Whether the first segment of a path looks like a host name: it holds a
/// dot and does not begin with one.
pub open spec fn looks_like_host(segment: Seq<char>) -> bool {
    segment.contains('.') && segment[0] != '.'
}

/// The absolute remote path that `path` stands for.
///
/// * A URL (`scheme://authority/rest`) loses its scheme and authority; what
///   is left is `/rest`, or `/` when the URL has no path.
/// * `host.name/rest` loses the host-like first segment; what is left is
///   `/rest` with the slashes at the front of `rest` removed.
/// * Anything else stays as it is.
pub open spec fn normalize_spec(path: Seq<char>) -> Seq<char> {
    let n = scheme_len(path);
    if n > 0 {
        let after = path.skip(n);
        let k = find_char(after, '/');
        if k < after.len() {
            after.skip(k)
        } else {
            seq!['/']
        }
    } else {
        let k = find_char(path, '/');
        if k < path.len() && looks_like_host(path.take(k)) {
            seq!['/'] + strip_leading(path.skip(k + 1), '/')
        } else {
            path
        }
    }
}

/// The path of the entry `name` inside the directory `dir`: `dir` without
/// its trailing slashes, a slash, and the name.
pub open spec fn child_path_spec(dir: Seq<char>, name: Seq<char>) -> Seq<char> {
    strip_trailing(dir, '/') + seq!['/'] + name
}

/// The last segment of `path`: what follows its last slash, or all of it
/// when it holds none.
pub open spec fn last_segment_spec(path: Seq<char>) -> Seq<char> {
    path.skip(after_last_char(path, '/'))
}

/// A path that begins with a slash is already normal.
pub proof fn lemma_absolute_is_fixed(path: Seq<char>)
    requires
        path.len() > 0,
        path[0] == '/',
    ensures
        normalize_spec(path) == path,
{
    reveal_strlit("http://");
    reveal_strlit("https://");
    reveal_strlit("ftp://");
    assert(!has_prefix(path, "http://"@)) by {
        if has_prefix(path, "http://"@) {
            assert(path.subrange(0, 7)[0] == 'h');
        }
    }
    assert(!has_prefix(path, "https://"@)) by {
        if has_prefix(path, "https://"@) {
            assert(path.subrange(0, 8)[0] == 'h');
        }
    }
    assert(!has_prefix(path, "ftp://"@)) by {
        if has_prefix(path, "ftp://"@) {
            assert(path.subrange(0, 6)[0] == 'f');
        }
    }
    assert(find_char(path, '/') == 0);
    assert(path.take(0) =~= Seq::<char>::empty());
    assert(!path.take(0).contains('.'));
}

/// Normalizing changes a path only into one that begins with a slash.
pub proof fn lemma_normalize_absolute_or_same(path: Seq<char>)
    ensures
        normalize_spec(path) == path || (normalize_spec(path).len() > 0 && normalize_spec(
            path,
        )[0] == '/'),
{
    let n = scheme_len(path);
    if n > 0 {
        let after = path.skip(n);
        lemma_find_char(after, '/');
    } else {
        lemma_find_char(path, '/');
    }
}

/// Normalizing twice gives what normalizing once gives.
pub proof fn lemma_normalize_idempotent(path: Seq<char>)
    ensures
        normalize_spec(normalize_spec(path)) == normalize_spec(path),
{
    lemma_normalize_absolute_or_same(path);
    if normalize_spec(path) != path {
        lemma_absolute_is_fixed(normalize_spec(path));
    }
}

/// What is left of a text without its trailing slashes is an initial part
/// of it.
proof fn lemma_strip_trailing_is_prefix(s: Seq<char>)
    ensures
        strip_trailing(s, '/').len() <= s.len(),
        strip_trailing(s, '/') == s.take(strip_trailing(s, '/').len() as int),
    decreases s.len(),
{
    if s.len() > 0 && s.last() == '/' {
        let t = s.drop_last();
        lemma_strip_trailing_is_prefix(t);
        let r = strip_trailing(t, '/');
        assert(t.take(r.len() as int) =~= s.take(r.len() as int));
    } else {
        assert(s.take(s.len() as int) =~= s);
    }
}

/// The path of an entry of an absolute directory is absolute, and
/// normalizing it changes nothing.
pub proof fn lemma_child_path_absolute(dir: Seq<char>, name: Seq<char>)
    requires
        dir.len() > 0,
        dir[0] == '/',
    ensures
        child_path_spec(dir, name).len() > 0,
        child_path_spec(dir, name)[0] == '/',
        normalize_spec(child_path_spec(dir, name)) == child_path_spec(dir, name),
{
    lemma_strip_trailing_is_prefix(dir);
    let stem = strip_trailing(dir, '/');
    let path = child_path_spec(dir, name);
    if stem.len() > 0 {
        assert(stem[0] == dir[0]);
        assert(path[0] == stem[0]);
    } else {
        assert(path[0] == '/');
    }
    lemma_absolute_is_fixed(path);
}

/// Length of the URL scheme prefix of `v`, or `0`.
fn scheme_len_of(v: &Vec<char>) -> (n: usize)
    ensures
        n == scheme_len(v@),
        n <= v.len(),
{
    let http = chars_of("http://");
    let https = chars_of("https://");
    let ftp = chars_of("ftp://");
    proof {
        reveal_strlit("http://");
        reveal_strlit("https://");
        reveal_strlit("ftp://");
    }
    if starts_with(v, &http) {
        7
    } else if starts_with(v, &https) {
        8
    } else if starts_with(v, &ftp) {
        6
    } else {
        0
    }
}

/// Whether `v[..end]` holds a dot and does not begin with one.
fn head_looks_like_host(v: &Vec<char>, end: usize) -> (r: bool)
    requires
        end <= v.len(),
    ensures
        r == looks_like_host(v@.take(end as int)),
{
    if end == 0 || v[0] == '.' {
        proof {
            if end == 0 {
                assert(!v@.take(0).contains('.'));
            }
        }
        return false;
    }
    let mut i: usize = 0;
    while i < end
        invariant
            i <= end <= v.len(),
            end > 0,
            v@[0] != '.',
            forall|j: int| 0 <= j < i ==> v@[j] != '.',
        decreases end - i,
    {
        if v[i] == '.' {
            proof {
                assert(v@.take(end as int)[i as int] == '.');
                assert(v@.take(end as int)[0] == v@[0]);
            }
            return true;
        }
        i += 1;
    }
    proof {
        let head = v@.take(end as int);
        if head.contains('.') {
            let j = choose|j: int| 0 <= j < head.len() && head[j] == '.';
            assert(v@[j] == '.');
        }
    }
    false
}

/// Turns a path as the user interface hands it over into an absolute remote
/// path. Never fails; applying it to its own result changes nothing.
pub fn normalize_remote_path(path: &str) -> (out: String)
    ensures
        out@ == normalize_spec(path@),
{
    let v = chars_of(path);
    let n = scheme_len_of(&v);
    if n > 0 {
        let k = find_char_from(&v, n, '/');
        if k < v.len() {
            proof {
                assert(v@.skip(n as int).skip(k - n) =~= v@.subrange(k as int, v.len() as int));
            }
            string_of_range(&v, k, v.len())
        } else {
            let mut out: Vec<char> = Vec::new();
            out.push('/');
            proof {
                assert(out@ =~= seq!['/']);
            }
            string_of(&out)
        }
    } else {
        let k = find_char_from(&v, 0, '/');
        proof {
            assert(v@.skip(0) =~= v@);
        }
        if k < v.len() && head_looks_like_host(&v, k) {
            let mut from: usize = k + 1;
            while from < v.len() && v[from] == '/'
                invariant
                    k + 1 <= from <= v.len(),
                    strip_leading(v@.skip(k + 1), '/') == strip_leading(v@.skip(from as int), '/'),
                decreases v.len() - from,
            {
                proof {
                    assert(v@.skip(from as int).drop_first() =~= v@.skip(from + 1));
                }
                from += 1;
            }
            let mut out: Vec<char> = Vec::new();
            out.push('/');
            push_range(&mut out, &v, from, v.len());
            proof {
                assert(v@.subrange(from as int, v.len() as int) =~= v@.skip(from as int));
                assert(out@ =~= seq!['/'] + v@.skip(from as int));
            }
            string_of(&out)
        } else {
            string_of(&v)
        }
    }
}

/// The path of the entry `name` inside the remote directory `dir`.
pub fn child_path(dir: &str, name: &str) -> (out: String)
    ensures
        out@ == child_path_spec(dir@, name@),
{
    let d = chars_of(dir);
    let mut end: usize = d.len();
    proof {
        assert(d@.take(d.len() as int) =~= d@);
    }
    while end > 0 && d[end - 1] == '/'
        invariant
            end <= d.len(),
            strip_trailing(d@, '/') == strip_trailing(d@.take(end as int), '/'),
        decreases end,
    {
        proof {
            assert(d@.take(end as int).drop_last() =~= d@.take(end - 1));
        }
        end -= 1;
    }
    proof {
        assert(d@.subrange(0, end as int) =~= d@.take(end as int));
    }
    let mut out: Vec<char> = Vec::new();
    push_range(&mut out, &d, 0, end);
    out.push('/');
    push_str_chars(&mut out, name);
    proof {
        assert(out@ =~= strip_trailing(d@, '/') + seq!['/'] + name@);
    }
    string_of(&out)
}

/// The last segment of `path`: the name by which a listing shows it.
pub fn last_segment(path: &str) -> (out: String)
    ensures
        out@ == last_segment_spec(path@),
{
    let v = chars_of(path);
    let mut start: usize = v.len();
    proof {
        assert(v@.take(v.len() as int) =~= v@);
    }
    while start > 0 && v[start - 1] != '/'
        invariant
            start <= v.len(),
            after_last_char(v@, '/') == after_last_char(v@.take(start as int), '/'),
        decreases start,
    {
        proof {
            assert(v@.take(start as int).drop_last() =~= v@.take(start - 1));
        }
        start -= 1;
    }
    proof {
        assert(v@.subrange(start as int, v.len() as int) =~= v@.skip(start as int));
    }
    string_of_range(&v, start, v.len())
}

} // verus!
