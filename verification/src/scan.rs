//! Reading text: white space, splitting at a separator, comparing without
//! regard to ASCII case, and unsigned numbers.

use crate::text::{find_char, find_char_from, lemma_find_char};
use vstd::prelude::*;

verus! {

/// Whether `c` is white space: the code points that Unicode gives the
/// property `White_Space`.
pub open spec fn is_space(c: char) -> bool {
    let u = c as u32;
    ||| 0x09 <= u <= 0x0d
    ||| u == 0x20
    ||| u == 0x85
    ||| u == 0xa0
    ||| u == 0x1680
    ||| 0x2000 <= u <= 0x200a
    ||| u == 0x2028
    ||| u == 0x2029
    ||| u == 0x202f
    ||| u == 0x205f
    ||| u == 0x3000
}

/// `s` without the white space at its start.
pub open spec fn trim_start_spec(s: Seq<char>) -> Seq<char>
    decreases s.len(),
{
    if s.len() > 0 && is_space(s[0]) {
        trim_start_spec(s.drop_first())
    } else {
        s
    }
}

/// `s` without the white space at its end.
pub open spec fn trim_end_spec(s: Seq<char>) -> Seq<char>
    decreases s.len(),
{
    if s.len() > 0 && is_space(s.last()) {
        trim_end_spec(s.drop_last())
    } else {
        s
    }
}

/// `s` without the white space at both ends.
pub open spec fn trim_spec(s: Seq<char>) -> Seq<char> {
    trim_end_spec(trim_start_spec(s))
}

/// The parts of `s` between occurrences of `sep`, in order. There is always
/// at least one part; a part may be empty.
pub open spec fn split_spec(s: Seq<char>, sep: char) -> Seq<Seq<char>>
    decreases s.len(),
{
    let k = find_char(s, sep);
    if 0 <= k < s.len() {
        seq![s.take(k)] + split_spec(s.skip(k + 1), sep)
    } else {
        seq![s]
    }
}

/// `c` with an ASCII capital letter replaced by the small one.
pub open spec fn ascii_lower(c: char) -> char {
    if 'A' <= c <= 'Z' {
        ((c as u8) + 32) as char
    } else {
        c
    }
}

/// Whether `a` and `b` are equal once their ASCII capitals are made small.
pub open spec fn eq_ignoring_ascii_case(a: Seq<char>, b: Seq<char>) -> bool {
    a.len() == b.len() && forall|i: int| 0 <= i < a.len() ==> ascii_lower(a[i]) == ascii_lower(b[i])
}

/// Whether `c` is one of `0` to `9`.
pub open spec fn is_digit(c: char) -> bool {
    '0' <= c <= '9'
}

/// The value of the digit `c`.
pub open spec fn digit_value(c: char) -> nat {
    (c as u32 - '0' as u32) as nat
}

/// Whether `s` is made of digits only.
pub open spec fn all_digits(s: Seq<char>) -> bool {
    forall|i: int| 0 <= i < s.len() ==> is_digit(#[trigger] s[i])
}

/// The number that the digits of `s` write in decimal; `0` for no digits.
pub open spec fn digits_value(s: Seq<char>) -> nat
    decreases s.len(),
{
    if s.len() == 0 {
        0
    } else {
        digits_value(s.drop_last()) * 10 + digit_value(s.last())
    }
}

/// The number that `s` writes, if it writes one no larger than `max`: an
/// optional `+`, then one or more digits.
pub open spec fn parse_unsigned_spec(s: Seq<char>, max: nat) -> Option<nat> {
    let body = if s.len() > 0 && s[0] == '+' {
        s.drop_first()
    } else {
        s
    };
    if body.len() > 0 && all_digits(body) && digits_value(body) <= max {
        Some(digits_value(body))
    } else {
        None
    }
}

/// Whether `c` is white space.
pub fn is_space_char(c: char) -> (r: bool)
    ensures
        r == is_space(c),
{
    let u: u32 = c as u32;
    (0x09 <= u && u <= 0x0d) || u == 0x20 || u == 0x85 || u == 0xa0 || u == 0x1680 || (0x2000
        <= u && u <= 0x200a) || u == 0x2028 || u == 0x2029 || u == 0x202f || u == 0x205f || u
        == 0x3000
}

/// The bounds of `v[from..to]` without the white space at both ends.
pub fn trim_range(v: &Vec<char>, from: usize, to: usize) -> (r: (usize, usize))
    requires
        from <= to <= v.len(),
    ensures
        from <= r.0 <= r.1 <= to,
        v@.subrange(r.0 as int, r.1 as int) == trim_spec(v@.subrange(from as int, to as int)),
{
    let mut a: usize = from;
    while a < to && is_space_char(v[a])
        invariant
            from <= a <= to <= v.len(),
            trim_start_spec(v@.subrange(from as int, to as int)) == trim_start_spec(
                v@.subrange(a as int, to as int),
            ),
        decreases to - a,
    {
        proof {
            assert(v@.subrange(a as int, to as int).drop_first() =~= v@.subrange(
                a + 1,
                to as int,
            ));
        }
        a += 1;
    }
    let mut b: usize = to;
    while b > a && is_space_char(v[b - 1])
        invariant
            a <= b <= to <= v.len(),
            trim_end_spec(v@.subrange(a as int, to as int)) == trim_end_spec(
                v@.subrange(a as int, b as int),
            ),
        decreases b,
    {
        proof {
            assert(v@.subrange(a as int, b as int).drop_last() =~= v@.subrange(a as int, b - 1));
        }
        b -= 1;
    }
    (a, b)
}

/// The parts of `v` between occurrences of `sep`, as pairs of bounds.
pub fn split_ranges(v: &Vec<char>, sep: char) -> (parts: Vec<(usize, usize)>)
    ensures
        parts.len() == split_spec(v@, sep).len(),
        parts.len() >= 1,
        forall|i: int|
            0 <= i < parts.len() ==> (#[trigger] parts[i]).0 <= parts[i].1 <= v.len()
                && v@.subrange(parts[i].0 as int, parts[i].1 as int) == split_spec(v@, sep)[i],
{
    let mut parts: Vec<(usize, usize)> = Vec::new();
    let mut start: usize = 0;
    proof {
        assert(v@.skip(0) =~= v@);
    }
    loop
        invariant_except_break
            split_spec(v@, sep).len() == parts.len() + split_spec(v@.skip(start as int), sep).len(),
            forall|j: int|
                0 <= j < split_spec(v@.skip(start as int), sep).len() ==> split_spec(
                    v@,
                    sep,
                )[parts.len() + j] == #[trigger] split_spec(v@.skip(start as int), sep)[j],
        invariant
            start <= v.len(),
            forall|i: int|
                0 <= i < parts.len() ==> (#[trigger] parts[i]).0 <= parts[i].1 <= v.len()
                    && v@.subrange(parts[i].0 as int, parts[i].1 as int) == split_spec(v@, sep)[i],
        ensures
            parts.len() == split_spec(v@, sep).len(),
            parts.len() >= 1,
            forall|i: int|
                0 <= i < parts.len() ==> (#[trigger] parts[i]).0 <= parts[i].1 <= v.len()
                    && v@.subrange(parts[i].0 as int, parts[i].1 as int) == split_spec(v@, sep)[i],
        decreases v.len() - start,
    {
        let k = find_char_from(v, start, sep);
        let ghost rest = v@.skip(start as int);
        let ghost tail = split_spec(rest, sep);
        proof {
            lemma_find_char(rest, sep);
            assert(rest.take(k - start) =~= v@.subrange(start as int, k as int));
            assert(tail[0] == rest.take(k - start));
        }
        parts.push((start, k));
        if k >= v.len() {
            proof {
                assert(tail.len() == 1);
            }
            break;
        }
        proof {
            assert(rest.skip(k - start + 1) =~= v@.skip(k + 1));
            let next = split_spec(v@.skip(k + 1), sep);
            assert(tail == seq![rest.take(k - start)] + next);
            assert forall|j: int| 0 <= j < next.len() implies split_spec(v@, sep)[parts.len() + j]
                == #[trigger] next[j] by {
                assert(tail[j + 1] == next[j]);
            }
        }
        start = k + 1;
    }
    parts
}

/// `c` with an ASCII capital letter replaced by the small one.
pub fn ascii_lower_char(c: char) -> (r: char)
    ensures
        r == ascii_lower(c),
{
    if 'A' <= c && c <= 'Z' {
        ((c as u8) + 32) as char
    } else {
        c
    }
}

/// Whether `v[from..to]` equals `word` without regard to ASCII case.
pub fn range_eq_ignoring_case(v: &Vec<char>, from: usize, to: usize, word: &Vec<char>) -> (r:
    bool)
    requires
        from <= to <= v.len(),
    ensures
        r == eq_ignoring_ascii_case(v@.subrange(from as int, to as int), word@),
{
    if to - from != word.len() {
        return false;
    }
    let mut i: usize = 0;
    while i < word.len()
        invariant
            from <= to <= v.len(),
            to - from == word.len(),
            i <= word.len(),
            forall|j: int|
                0 <= j < i ==> ascii_lower(v@.subrange(from as int, to as int)[j]) == ascii_lower(
                    word@[j],
                ),
        decreases word.len() - i,
    {
        if ascii_lower_char(v[from + i]) != ascii_lower_char(word[i]) {
            proof {
                assert(v@.subrange(from as int, to as int)[i as int] == v@[from + i]);
            }
            return false;
        }
        proof {
            assert(v@.subrange(from as int, to as int)[i as int] == v@[from + i]);
        }
        i += 1;
    }
    true
}

/// A number's digits write no less than an initial part of them does.
pub proof fn lemma_digits_value_grows(s: Seq<char>, n: int)
    requires
        0 <= n <= s.len(),
    ensures
        digits_value(s.take(n)) <= digits_value(s),
    decreases s.len() - n,
{
    if n < s.len() {
        lemma_digits_value_grows(s, n + 1);
        assert(s.take(n + 1).drop_last() =~= s.take(n));
    } else {
        assert(s.take(n) =~= s);
    }
}

/// The number that `v[from..to]` writes, if it writes one no larger than
/// `max`.
#[verifier::loop_isolation(false)]
pub fn parse_unsigned_range(v: &Vec<char>, from: usize, to: usize, max: u64) -> (r: Option<u64>)
    requires
        from <= to <= v.len(),
    ensures
        r matches Some(n) ==> parse_unsigned_spec(v@.subrange(from as int, to as int), max as nat)
            == Some(n as nat),
        r is None ==> parse_unsigned_spec(v@.subrange(from as int, to as int), max as nat)
            is None,
{
    let ghost s = v@.subrange(from as int, to as int);
    let start: usize = if from < to && v[from] == '+' {
        from + 1
    } else {
        from
    };
    let ghost body = v@.subrange(start as int, to as int);
    proof {
        if from < to && v@[from as int] == '+' {
            assert(s[0] == '+');
            assert(s.drop_first() =~= body);
        } else {
            if s.len() > 0 {
                assert(s[0] == v@[from as int]);
            }
            assert(s =~= body);
        }
    }
    if start == to {
        return None;
    }
    let mut acc: u64 = 0;
    let mut i: usize = start;
    while i < to
        invariant
            start <= i <= to <= v.len(),
            body == v@.subrange(start as int, to as int),
            all_digits(body.take(i - start)),
            acc == digits_value(body.take(i - start)),
            acc <= max,
        decreases to - i,
    {
        let c = v[i];
        proof {
            assert(body[i - start] == c);
            assert(body.take(i - start + 1).drop_last() =~= body.take(i - start));
            assert(body.take(i - start + 1).last() == c);
        }
        if !('0' <= c && c <= '9') {
            proof {
                assert(!is_digit(body[i - start]));
            }
            return None;
        }
        let d: u64 = (c as u32 - '0' as u32) as u64;
        if d > max || acc > (max - d) / 10 {
            proof {
                lemma_digits_value_grows(body, i - start + 1);
            }
            return None;
        }
        acc = acc * 10 + d;
        proof {
            assert forall|j: int| 0 <= j < i - start + 1 implies is_digit(
                #[trigger] body.take(i - start + 1)[j],
            ) by {
                if j < i - start {
                    assert(body.take(i - start)[j] == body.take(i - start + 1)[j]);
                }
            }
        }
        i += 1;
    }
    proof {
        assert(body.take(to - start) =~= body);
    }
    Some(acc)
}

} // verus!
