//! Directory listings: reading one line of a machine-readable FTP listing,
//! and describing an entry of either protocol as a `FileItem`.

use crate::models::{FileItem, FileItemView};
use crate::path::{child_path, child_path_spec, lemma_child_path_absolute, normalize_spec};
use crate::scan::{
    eq_ignoring_ascii_case, parse_unsigned_range, parse_unsigned_spec, range_eq_ignoring_case,
    split_ranges, split_spec, trim_range, trim_spec,
};
use crate::sizes::{format_bytes, format_bytes_spec};
use crate::text::{
    chars_of, equals_str, find_char, find_char_from, lemma_find_char, lemma_find_char_is,
    padded_decimal, push_padded_decimal, push_range, push_str_chars, string_of,
};
use vstd::prelude::*;

verus! {

/// What the facts of a listing line have said so far.
pub struct Facts {
    pub size: u64,
    pub is_dir: bool,
    pub date: Seq<char>,
}

/// Number of bytes that `c` takes in UTF-8.
pub open spec fn utf8_len_of_char(c: char) -> nat {
    let u = c as u32;
    if u < 0x80 {
        1
    } else if u < 0x800 {
        2
    } else if u < 0x10000 {
        3
    } else {
        4
    }
}

/// Number of bytes that `s` takes in UTF-8.
pub open spec fn utf8_len(s: Seq<char>) -> nat
    decreases s.len(),
{
    if s.len() == 0 {
        0
    } else {
        utf8_len(s.drop_last()) + utf8_len_of_char(s.last())
    }
}

/// Whether the value of a `type` fact names a directory.
pub open spec fn is_dir_type(value: Seq<char>) -> bool {
    ||| eq_ignoring_ascii_case(value, "dir"@)
    ||| eq_ignoring_ascii_case(value, "pdir"@)
    ||| eq_ignoring_ascii_case(value, "cdir"@)
}

/// The number that the field `value[from..to]` of a time stamp writes.
pub open spec fn stamp_field(value: Seq<char>, from: int, to: int) -> Option<nat> {
    parse_unsigned_spec(value.subrange(from, to), u32::MAX as nat)
}

/// The text shown for the value of a `modify` fact.
///
/// A value of 14 bytes whose first twelve characters give year, month, day,
/// hour and minute as numbers becomes `YYYY-MM-DD HH:MM`; any other value is
/// shown as it is.
pub open spec fn modify_text(value: Seq<char>) -> Seq<char> {
    if value.len() >= 12 && utf8_len(value) == 14 && stamp_field(value, 0, 4) is Some
        && stamp_field(value, 4, 6) is Some && stamp_field(value, 6, 8) is Some && stamp_field(
        value,
        8,
        10,
    ) is Some && stamp_field(value, 10, 12) is Some {
        padded_decimal(stamp_field(value, 0, 4).unwrap(), 4) + "-"@ + padded_decimal(
            stamp_field(value, 4, 6).unwrap(),
            2,
        ) + "-"@ + padded_decimal(stamp_field(value, 6, 8).unwrap(), 2) + " "@ + padded_decimal(
            stamp_field(value, 8, 10).unwrap(),
            2,
        ) + ":"@ + padded_decimal(stamp_field(value, 10, 12).unwrap(), 2)
    } else {
        value
    }
}

/// What is known after one more fact, `part`, has been read.
///
/// A fact is `key=value` with white space around it ignored; keys and
/// directory types are compared without regard to ASCII case. `type` can
/// only turn an entry into a directory; `size` sets the size, `0` when the
/// value is no number that fits; `modify` sets the date text. Anything else
/// changes nothing.
pub open spec fn apply_fact(acc: Facts, part: Seq<char>) -> Facts {
    let fact = trim_spec(part);
    let k = find_char(fact, '=');
    if 0 <= k < fact.len() {
        let key = fact.take(k);
        let value = fact.skip(k + 1);
        if eq_ignoring_ascii_case(key, "type"@) {
            Facts { is_dir: acc.is_dir || is_dir_type(value), ..acc }
        } else if eq_ignoring_ascii_case(key, "size"@) {
            Facts {
                size: match parse_unsigned_spec(value, u64::MAX as nat) {
                    Some(n) => n as u64,
                    None => 0,
                },
                ..acc
            }
        } else if eq_ignoring_ascii_case(key, "modify"@) {
            Facts { date: modify_text(value), ..acc }
        } else {
            acc
        }
    } else {
        acc
    }
}

/// What is known after the facts `parts` have been read in order.
pub open spec fn fold_facts(parts: Seq<Seq<char>>) -> Facts
    decreases parts.len(),
{
    if parts.len() == 0 {
        Facts { size: 0, is_dir: false, date: Seq::empty() }
    } else {
        apply_fact(fold_facts(parts.drop_last()), parts.last())
    }
}

/// Whether a listing may show an entry of this name: not empty, and neither
/// `.` nor `..`.
pub open spec fn is_entry_name(name: Seq<char>) -> bool {
    name.len() > 0 && name != "."@ && name != ".."@
}

/// What one line of a machine-readable listing says: name, size, whether it
/// is a directory, the date text, and the permissions (always empty).
///
/// The line is a run of facts, each closed by a semicolon, and then the
/// name. A line without `=` or without `;`, or with a name that is empty,
/// `.` or `..`, says nothing.
pub open spec fn parse_line_spec(line: Seq<char>) -> Option<
    (Seq<char>, u64, bool, Seq<char>, Seq<char>),
> {
    let parts = split_spec(line, ';');
    let name = trim_spec(parts.last());
    let facts = fold_facts(parts.drop_last());
    if line.contains('=') && line.contains(';') && is_entry_name(name) {
        Some((name, facts.size, facts.is_dir, facts.date, Seq::empty()))
    } else {
        None
    }
}

/// Number of bytes that `v[from..to]` takes in UTF-8 is exactly 14.
fn takes_fourteen_bytes(v: &Vec<char>, from: usize, to: usize) -> (r: bool)
    requires
        from <= to <= v.len(),
    ensures
        r == (utf8_len(v@.subrange(from as int, to as int)) == 14),
{
    let ghost s = v@.subrange(from as int, to as int);
    let mut total: usize = 0;
    let mut i: usize = from;
    while i < to
        invariant
            from <= i <= to <= v.len(),
            s == v@.subrange(from as int, to as int),
            total == utf8_len(s.take(i - from)),
            total <= 14,
        decreases to - i,
    {
        let u: u32 = v[i] as u32;
        let n: usize = if u < 0x80 {
            1
        } else if u < 0x800 {
            2
        } else if u < 0x10000 {
            3
        } else {
            4
        };
        proof {
            assert(s.take(i - from + 1).drop_last() =~= s.take(i - from));
            assert(s.take(i - from + 1).last() == v@[i as int]);
        }
        total = total + n;
        if total > 14 {
            proof {
                lemma_utf8_len_grows(s, i - from + 1);
            }
            return false;
        }
        i += 1;
    }
    proof {
        assert(s.take(to - from) =~= s);
    }
    total == 14
}

/// A text takes no fewer bytes than an initial part of it.
proof fn lemma_utf8_len_grows(s: Seq<char>, n: int)
    requires
        0 <= n <= s.len(),
    ensures
        utf8_len(s.take(n)) <= utf8_len(s),
    decreases s.len() - n,
{
    if n < s.len() {
        lemma_utf8_len_grows(s, n + 1);
        assert(s.take(n + 1).drop_last() =~= s.take(n));
    } else {
        assert(s.take(n) =~= s);
    }
}

/// The text shown for the value `v[from..to]` of a `modify` fact.
fn modify_text_of(v: &Vec<char>, from: usize, to: usize) -> (out: Vec<char>)
    requires
        from <= to <= v.len(),
    ensures
        out@ == modify_text(v@.subrange(from as int, to as int)),
{
    let ghost value = v@.subrange(from as int, to as int);
    let mut raw: Vec<char> = Vec::new();
    push_range(&mut raw, v, from, to);
    proof {
        assert(raw@ =~= value);
    }
    if to - from < 12 || !takes_fourteen_bytes(v, from, to) {
        return raw;
    }
    proof {
        assert(value.subrange(0, 4) =~= v@.subrange(from as int, from + 4));
        assert(value.subrange(4, 6) =~= v@.subrange(from + 4, from + 6));
        assert(value.subrange(6, 8) =~= v@.subrange(from + 6, from + 8));
        assert(value.subrange(8, 10) =~= v@.subrange(from + 8, from + 10));
        assert(value.subrange(10, 12) =~= v@.subrange(from + 10, from + 12));
    }
    let year = parse_unsigned_range(v, from, from + 4, u32::MAX as u64);
    let month = parse_unsigned_range(v, from + 4, from + 6, u32::MAX as u64);
    let day = parse_unsigned_range(v, from + 6, from + 8, u32::MAX as u64);
    let hour = parse_unsigned_range(v, from + 8, from + 10, u32::MAX as u64);
    let minute = parse_unsigned_range(v, from + 10, from + 12, u32::MAX as u64);
    match (year, month, day, hour, minute) {
        (Some(y), Some(mo), Some(d), Some(h), Some(mi)) => {
            let mut out: Vec<char> = Vec::new();
            push_padded_decimal(&mut out, y as u128, 4);
            push_str_chars(&mut out, "-");
            push_padded_decimal(&mut out, mo as u128, 2);
            push_str_chars(&mut out, "-");
            push_padded_decimal(&mut out, d as u128, 2);
            push_str_chars(&mut out, " ");
            push_padded_decimal(&mut out, h as u128, 2);
            push_str_chars(&mut out, ":");
            push_padded_decimal(&mut out, mi as u128, 2);
            proof {
                assert(out@ =~= modify_text(value));
            }
            out
        },
        _ => raw,
    }
}

/// Whether `v[from..to]` names a directory type.
fn is_dir_type_of(v: &Vec<char>, from: usize, to: usize) -> (r: bool)
    requires
        from <= to <= v.len(),
    ensures
        r == is_dir_type(v@.subrange(from as int, to as int)),
{
    let dir = chars_of("dir");
    let pdir = chars_of("pdir");
    let cdir = chars_of("cdir");
    range_eq_ignoring_case(v, from, to, &dir) || range_eq_ignoring_case(v, from, to, &pdir)
        || range_eq_ignoring_case(v, from, to, &cdir)
}

/// Reads one line of a machine-readable (MLSD) listing.
///
/// Returns name, size in bytes, whether the entry is a directory, the date
/// text and the permissions text, or `None` for a line that describes no
/// entry to show.
pub fn parse_ftp_list_line(line: &str) -> (r: Option<(String, u64, bool, String, String)>)
    ensures
        match r {
            Some((name, size, is_dir, date, permissions)) => parse_line_spec(line@) == Some(
                (name@, size, is_dir, date@, permissions@),
            ),
            None => parse_line_spec(line@) is None,
        },
{
    let v = chars_of(line);
    let has_eq = find_char_from(&v, 0, '=') < v.len();
    let has_semi = find_char_from(&v, 0, ';') < v.len();
    proof {
        assert(v@.skip(0) =~= v@);
        lemma_find_char(v@, '=');
        lemma_find_char(v@, ';');
    }
    if !has_eq || !has_semi {
        return None;
    }
    let parts = split_ranges(&v, ';');
    let ghost all = split_spec(v@, ';');
    let last = parts[parts.len() - 1];
    let (name_from, name_to) = trim_range(&v, last.0, last.1);
    let name_chars = {
        let mut n: Vec<char> = Vec::new();
        push_range(&mut n, &v, name_from, name_to);
        n
    };
    proof {
        assert(name_chars@ =~= trim_spec(all.last()));
    }
    if name_chars.len() == 0 || equals_str(&name_chars, ".") || equals_str(&name_chars, "..") {
        return None;
    }
    let key_type = chars_of("type");
    let key_size = chars_of("size");
    let key_modify = chars_of("modify");
    let mut size: u64 = 0;
    let mut is_dir: bool = false;
    let mut date: Vec<char> = Vec::new();
    let count: usize = parts.len() - 1;
    let mut i: usize = 0;
    proof {
        assert(all.drop_last().take(0) =~= Seq::<Seq<char>>::empty());
    }
    while i < count
        invariant
            i <= count,
            count == parts.len() - 1,
            parts.len() == all.len(),
            all == split_spec(v@, ';'),
            forall|j: int|
                0 <= j < parts.len() ==> (#[trigger] parts[j]).0 <= parts[j].1 <= v.len()
                    && v@.subrange(parts[j].0 as int, parts[j].1 as int) == all[j],
            key_type@ == "type"@,
            key_size@ == "size"@,
            key_modify@ == "modify"@,
            fold_facts(all.drop_last().take(i as int)) == (Facts { size, is_dir, date: date@ }),
        decreases count - i,
    {
        let part = parts[i];
        let (a, b) = trim_range(&v, part.0, part.1);
        let ghost fact = v@.subrange(a as int, b as int);
        let k = find_char_from(&v, a, '=');
        proof {
            assert(all.drop_last().take(i + 1).drop_last() =~= all.drop_last().take(i as int));
            assert(all.drop_last().take(i + 1).last() == all[i as int]);
            assert(fact == trim_spec(all[i as int]));
            lemma_find_char(v@.skip(a as int), '=');
            lemma_find_char(fact, '=');
            if k < b {
                assert forall|j: int| 0 <= j < k - a implies fact[j] != '=' by {
                    assert(v@.skip(a as int)[j] == fact[j]);
                }
                assert(fact[k - a] == '=');
                lemma_find_char_is(fact, '=', k - a);
            } else {
                assert forall|j: int| 0 <= j < fact.len() implies fact[j] != '=' by {
                    assert(v@.skip(a as int)[j] == fact[j]);
                }
                lemma_find_char_is(fact, '=', fact.len() as int);
            }
        }
        if k < b {
            proof {
                assert(fact.take(k - a) =~= v@.subrange(a as int, k as int));
                assert(fact.skip(k - a + 1) =~= v@.subrange(k + 1, b as int));
            }
            if range_eq_ignoring_case(&v, a, k, &key_type) {
                if is_dir_type_of(&v, k + 1, b) {
                    is_dir = true;
                }
            } else if range_eq_ignoring_case(&v, a, k, &key_size) {
                size = match parse_unsigned_range(&v, k + 1, b, u64::MAX) {
                    Some(n) => n,
                    None => 0,
                };
            } else if range_eq_ignoring_case(&v, a, k, &key_modify) {
                date = modify_text_of(&v, k + 1, b);
            }
        }
        i += 1;
    }
    proof {
        assert(all.drop_last().take(count as int) =~= all.drop_last());
    }
    Some((string_of(&name_chars), size, is_dir, string_of(&date), String::new()))
}

/// The entry that a listing shows for the given facts.
///
/// A directory has size `0` and no size text; a file has the text of its
/// size.
pub open spec fn described(
    name: Seq<char>,
    full_path: Seq<char>,
    is_directory: bool,
    size: u64,
    modified: Option<i64>,
    readable_modified: Seq<char>,
    permissions: Seq<char>,
) -> FileItemView {
    FileItemView {
        name,
        full_path,
        size: if is_directory {
            0
        } else {
            size
        },
        modified,
        is_directory,
        readable_size: if is_directory {
            Seq::empty()
        } else {
            format_bytes_spec(size as nat)
        },
        readable_modified,
        permissions,
    }
}

/// The entry that the line `line` of a listing of the directory `dir`
/// describes, if it describes one.
pub open spec fn ftp_item_spec(dir: Seq<char>, line: Seq<char>) -> Option<FileItemView> {
    match parse_line_spec(line) {
        Some((name, size, is_dir, date, permissions)) => Some(
            described(name, child_path_spec(dir, name), is_dir, size, None, date, permissions),
        ),
        None => None,
    }
}

/// The entries that the lines of a listing of `dir` describe, in the order
/// of the lines; lines that describe nothing are passed over.
pub open spec fn listing_spec(dir: Seq<char>, lines: Seq<Seq<char>>) -> Seq<FileItemView>
    decreases lines.len(),
{
    if lines.len() == 0 {
        Seq::empty()
    } else {
        let before = listing_spec(dir, lines.drop_last());
        match ftp_item_spec(dir, lines.last()) {
            Some(item) => before.push(item),
            None => before,
        }
    }
}

/// The texts of some strings.
pub open spec fn texts_of(lines: Seq<String>) -> Seq<Seq<char>> {
    lines.map_values(|s: String| s@)
}

/// The views of some entries.
pub open spec fn views_of(items: Seq<FileItem>) -> Seq<FileItemView> {
    items.map_values(|item: FileItem| item@)
}

/// No listing shows `.` or `..`, every directory in it has size `0`, and
/// every entry of a listing of an absolute directory has an absolute path
/// that is its own normal form.
pub proof fn lemma_listing_entries(dir: Seq<char>, lines: Seq<Seq<char>>)
    ensures
        forall|i: int|
            0 <= i < listing_spec(dir, lines).len() ==> {
                let item = #[trigger] listing_spec(dir, lines)[i];
                &&& is_entry_name(item.name)
                &&& item.is_directory ==> item.size == 0
                &&& item.full_path == child_path_spec(dir, item.name)
                &&& dir.len() > 0 && dir[0] == '/' ==> item.full_path.len() > 0
                    && item.full_path[0] == '/' && normalize_spec(item.full_path)
                    == item.full_path
            },
        listing_spec(dir, lines).len() <= lines.len(),
    decreases lines.len(),
{
    if lines.len() > 0 {
        lemma_listing_entries(dir, lines.drop_last());
        match ftp_item_spec(dir, lines.last()) {
            Some(item) => {
                if dir.len() > 0 && dir[0] == '/' {
                    lemma_child_path_absolute(dir, item.name);
                }
            },
            None => {},
        }
    }
}

impl FileItem {
    /// Describes an entry from what is known of it.
    pub fn describe(
        name: String,
        full_path: String,
        is_directory: bool,
        size: u64,
        modified: Option<i64>,
        readable_modified: String,
        permissions: String,
    ) -> (item: FileItem)
        ensures
            item@ == described(
                name@,
                full_path@,
                is_directory,
                size,
                modified,
                readable_modified@,
                permissions@,
            ),
    {
        let readable_size = if is_directory {
            String::new()
        } else {
            format_bytes(size)
        };
        FileItem {
            name,
            full_path,
            size: if is_directory {
                0
            } else {
                size
            },
            modified,
            is_directory,
            readable_size,
            readable_modified,
            permissions,
        }
    }
}

/// The entry that one line of an FTP listing of `dir` describes.
pub fn ftp_file_item(dir: &str, line: &str) -> (r: Option<FileItem>)
    ensures
        match r {
            Some(item) => ftp_item_spec(dir@, line@) == Some(item@),
            None => ftp_item_spec(dir@, line@) is None,
        },
{
    match parse_ftp_list_line(line) {
        Some((name, size, is_dir, date, permissions)) => {
            let full_path = child_path(dir, name.as_str());
            Some(FileItem::describe(name, full_path, is_dir, size, None, date, permissions))
        },
        None => None,
    }
}

/// The entries of an FTP listing of `dir`, given its lines.
pub fn list_from_mlsd(dir: &str, lines: &Vec<String>) -> (items: Vec<FileItem>)
    ensures
        views_of(items@) == listing_spec(dir@, texts_of(lines@)),
{
    let mut items: Vec<FileItem> = Vec::new();
    let ghost texts = texts_of(lines@);
    let mut i: usize = 0;
    proof {
        assert(texts.take(0) =~= Seq::<Seq<char>>::empty());
        assert(views_of(items@) =~= Seq::<FileItemView>::empty());
    }
    while i < lines.len()
        invariant
            i <= lines.len(),
            texts == texts_of(lines@),
            views_of(items@) == listing_spec(dir@, texts.take(i as int)),
        decreases lines.len() - i,
    {
        let ghost before = items@;
        proof {
            assert(texts.take(i + 1).drop_last() =~= texts.take(i as int));
            assert(texts.take(i + 1).last() == lines@[i as int]@);
        }
        match ftp_file_item(dir, lines[i].as_str()) {
            Some(item) => {
                items.push(item);
                proof {
                    assert(views_of(items@) =~= views_of(before).push(item@));
                }
            },
            None => {},
        }
        i += 1;
    }
    proof {
        assert(texts.take(lines.len() as int) =~= texts);
    }
    items
}

} // verus!
