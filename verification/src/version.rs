use vstd::prelude::*;

use crate::text::{chars_of, trim, trim_chars};

verus! {

/// `s` without the leading `'v'`s, as `trim_start_matches('v')` leaves it.
pub open spec fn strip_v(s: Seq<char>) -> Seq<char>
    decreases s.len(),
{
    if s.len() > 0 && s[0] == 'v' {
        strip_v(s.drop_first())
    } else {
        s
    }
}

/// The pieces of `s` between the `sep`s, as `split(sep)` yields them: never
/// empty, one more piece than `s` holds `sep`s.
pub open spec fn split_on(s: Seq<char>, sep: char) -> Seq<Seq<char>>
    decreases s.len(),
{
    if s.len() == 0 {
        seq![Seq::<char>::empty()]
    } else {
        let pieces = split_on(s.drop_last(), sep);
        if s.last() == sep {
            pieces.push(Seq::<char>::empty())
        } else {
            pieces.update(pieces.len() - 1, pieces.last().push(s.last()))
        }
    }
}

pub open spec fn is_digit(c: char) -> bool {
    '0' <= c <= '9'
}

pub open spec fn digit_value(c: char) -> nat {
    if is_digit(c) {
        (c as u32 - '0' as u32) as nat
    } else {
        0
    }
}

/// The number that the decimal digits `s` write.
pub open spec fn decimal_value(s: Seq<char>) -> nat
    decreases s.len(),
{
    if s.len() == 0 {
        0
    } else {
        decimal_value(s.drop_last()) * 10 + digit_value(s.last())
    }
}

pub open spec fn all_digits(s: Seq<char>) -> bool {
    forall|i: int| 0 <= i < s.len() ==> is_digit(#[trigger] s[i])
}

/// What `str::parse::<u32>` gives: an optional `+`, then at least one decimal
/// digit and nothing else, for a number that fits in 32 bits.
pub open spec fn spec_parse_u32(s: Seq<char>) -> Option<u32> {
    let digits = if s.len() > 0 && s[0] == '+' {
        s.drop_first()
    } else {
        s
    };
    if digits.len() > 0 && all_digits(digits) && decimal_value(digits) <= u32::MAX {
        Some(decimal_value(digits) as u32)
    } else {
        None
    }
}

/// The version that a release tag such as `v0.7.0` names: white space trimmed,
/// leading `v`s dropped, then the first three dot-separated numbers.
pub open spec fn spec_parse_version(text: Seq<char>) -> Option<(u32, u32, u32)> {
    let pieces = split_on(strip_v(trim(text)), '.');
    if pieces.len() < 3 {
        None
    } else {
        match (spec_parse_u32(pieces[0]), spec_parse_u32(pieces[1]), spec_parse_u32(pieces[2])) {
            (Some(major), Some(minor), Some(patch)) => Some((major, minor, patch)),
            _ => None,
        }
    }
}

/// Whether version `a` comes after version `b`, comparing the numbers in order.
pub open spec fn version_after(a: (u32, u32, u32), b: (u32, u32, u32)) -> bool {
    ||| a.0 > b.0
    ||| a.0 == b.0 && a.1 > b.1
    ||| a.0 == b.0 && a.1 == b.1 && a.2 > b.2
}

/// Whether tag `latest` names a later version than `current`; false where
/// either does not read as a version.
pub open spec fn spec_is_newer(latest: Seq<char>, current: Seq<char>) -> bool {
    match (spec_parse_version(latest), spec_parse_version(current)) {
        (Some(a), Some(b)) => version_after(a, b),
        _ => false,
    }
}

proof fn lemma_decimal_prefix_le(s: Seq<char>, k: int)
    requires
        0 <= k <= s.len(),
    ensures
        decimal_value(s.take(k)) <= decimal_value(s),
    decreases s.len(),
{
    if k < s.len() {
        lemma_decimal_prefix_le(s.drop_last(), k);
        assert(s.drop_last().take(k) =~= s.take(k));
    } else {
        assert(s.take(k) =~= s);
    }
}

/// Reads a `u32` from the characters `s`, as `str::parse::<u32>` does.
pub fn parse_u32_chars(s: &Vec<char>) -> (r: Option<u32>)
    ensures
        r == spec_parse_u32(s@),
{
    let n = s.len();
    let start: usize = if n > 0 && s[0] == '+' {
        1
    } else {
        0
    };
    let ghost digits = if s@.len() > 0 && s@[0] == '+' {
        s@.drop_first()
    } else {
        s@
    };
    assert(digits =~= s@.subrange(start as int, n as int));
    if start == n {
        return None;
    }
    let mut acc: u64 = 0;
    let mut i: usize = start;
    while i < n
        invariant
            n == s@.len(),
            start <= i <= n,
            start < n,
            digits == (if s@.len() > 0 && s@[0] == '+' {
                s@.drop_first()
            } else {
                s@
            }),
            digits == s@.subrange(start as int, n as int),
            all_digits(digits.take(i - start)),
            acc == decimal_value(digits.take(i - start)),
            acc <= u32::MAX,
        decreases n - i,
    {
        let c = s[i];
        if !('0' <= c && c <= '9') {
            assert(digits[i - start] == c);
            return None;
        }
        let d = (c as u32 - '0' as u32) as u64;
        let next = acc * 10 + d;
        let ghost pre = digits.take(i - start);
        let ghost now = digits.take(i - start + 1);
        assert(now.drop_last() =~= pre);
        assert(now.last() == c);
        if next > 0xFFFF_FFFF {
            proof {
                assert(decimal_value(now) == next);
                if all_digits(digits) {
                    lemma_decimal_prefix_le(digits, i - start + 1);
                }
            }
            return None;
        }
        acc = next;
        i = i + 1;
        assert(all_digits(now)) by {
            assert forall|j: int| 0 <= j < now.len() implies is_digit(#[trigger] now[j]) by {
                if j < now.len() - 1 {
                    assert(now[j] == pre[j]);
                }
            }
        }
    }
    assert(digits.take(n - start) =~= digits);
    Some(acc as u32)
}

/// The pieces of `s` between the `sep`s, as `split(sep)` yields them.
pub fn split_chars(s: &Vec<char>, sep: char) -> (r: Vec<Vec<char>>)
    ensures
        r@.map_values(|p: Vec<char>| p@) == split_on(s@, sep),
{
    let n = s.len();
    let mut done: Vec<Vec<char>> = Vec::new();
    let mut cur: Vec<char> = Vec::new();
    let mut i: usize = 0;
    assert(s@.take(0) =~= Seq::<char>::empty());
    assert(done@.map_values(|p: Vec<char>| p@).push(cur@) =~= split_on(s@.take(0), sep));
    while i < n
        invariant
            n == s@.len(),
            i <= n,
            done@.map_values(|p: Vec<char>| p@).push(cur@) == split_on(s@.take(i as int), sep),
        decreases n - i,
    {
        let c = s[i];
        let ghost before = done@.map_values(|p: Vec<char>| p@).push(cur@);
        assert(s@.take(i + 1).drop_last() =~= s@.take(i as int));
        if c == sep {
            let finished = cur;
            done.push(finished);
            cur = Vec::new();
            assert(done@.map_values(|p: Vec<char>| p@).push(cur@) =~= before.push(
                Seq::<char>::empty(),
            ));
        } else {
            cur.push(c);
            assert(done@.map_values(|p: Vec<char>| p@).push(cur@) =~= before.update(
                before.len() - 1,
                before.last().push(c),
            ));
        }
        i = i + 1;
    }
    assert(s@.take(n as int) =~= s@);
    let ghost before = done@.map_values(|p: Vec<char>| p@).push(cur@);
    done.push(cur);
    assert(done@.map_values(|p: Vec<char>| p@) =~= before);
    done
}

/// Reads a release version such as `v0.7.0` into its three numbers.
pub fn parse_version(text: &str) -> (r: Option<[u32; 3]>)
    ensures
        match r {
            Some(v) => spec_parse_version(text@) == Some((v[0], v[1], v[2])),
            None => spec_parse_version(text@) is None,
        },
{
    let chars = chars_of(text);
    let trimmed = trim_chars(&chars);
    let n = trimmed.len();
    let mut start: usize = 0;
    assert(trimmed@.subrange(0, n as int) =~= trimmed@);
    while start < n && trimmed[start] == 'v'
        invariant
            n == trimmed@.len(),
            start <= n,
            strip_v(trimmed@) == strip_v(trimmed@.subrange(start as int, n as int)),
        decreases n - start,
    {
        assert(trimmed@.subrange(start as int, n as int).drop_first() =~= trimmed@.subrange(
            start + 1,
            n as int,
        ));
        start = start + 1;
    }
    let mut rest: Vec<char> = Vec::new();
    let mut k: usize = start;
    while k < n
        invariant
            n == trimmed@.len(),
            start <= k <= n,
            rest@ == trimmed@.subrange(start as int, k as int),
        decreases n - k,
    {
        rest.push(trimmed[k]);
        k = k + 1;
        assert(rest@ =~= trimmed@.subrange(start as int, k as int));
    }
    assert(rest@ =~= trimmed@.subrange(start as int, n as int));
    assert(strip_v(rest@) == rest@);
    let pieces = split_chars(&rest, '.');
    if pieces.len() < 3 {
        return None;
    }
    proof {
        let views = pieces@.map_values(|p: Vec<char>| p@);
        assert(views[0] == pieces@[0]@);
        assert(views[1] == pieces@[1]@);
        assert(views[2] == pieces@[2]@);
    }
    let major = parse_u32_chars(&pieces[0]);
    let minor = parse_u32_chars(&pieces[1]);
    let patch = parse_u32_chars(&pieces[2]);
    match (major, minor, patch) {
        (Some(a), Some(b), Some(c)) => Some([a, b, c]),
        _ => None,
    }
}

/// Whether the release tagged `latest` is newer than version `current`.
/// Either one that does not read as a version gives false.
pub fn is_newer(latest: &str, current: &str) -> (r: bool)
    ensures
        r == spec_is_newer(latest@, current@),
{
    match (parse_version(latest), parse_version(current)) {
        (Some(a), Some(b)) => {
            a[0] > b[0] || (a[0] == b[0] && a[1] > b[1]) || (a[0] == b[0] && a[1] == b[1] && a[2]
                > b[2])
        },
        _ => false,
    }
}

/// No tag is newer than itself.
pub proof fn lemma_newer_irreflexive(tag: Seq<char>)
    ensures
        !spec_is_newer(tag, tag),
{
}

/// Of two tags, at most one is newer than the other.
pub proof fn lemma_newer_asymmetric(a: Seq<char>, b: Seq<char>)
    ensures
        spec_is_newer(a, b) ==> !spec_is_newer(b, a),
{
}

/// A tag newer than a second, which is newer than a third, is newer than the third.
pub proof fn lemma_newer_transitive(a: Seq<char>, b: Seq<char>, c: Seq<char>)
    requires
        spec_is_newer(a, b),
        spec_is_newer(b, c),
    ensures
        spec_is_newer(a, c),
{
}

} // verus!
