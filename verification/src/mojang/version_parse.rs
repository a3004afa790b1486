//! Minecraft version numbers turned into comparable integer lists.
//!
//! Supported formats:
//! - old releases: `1.20.4`, `1.7.10`
//! - old snapshots: `24w13a`, `25w08a`
//! - old pre-releases and release candidates: `1.20.4-pre1`, `1.20.4-rc1`
//! - new releases (from 2026): `26.1`, `26.1.1`
//! - new snapshots: `26.1-snapshot-1`
//! - new pre-releases: `26.1-pre-1`
//! - new release candidates: `26.1-rc-2`
//! - ancient versions: `a1.0.16`, `b1.7.3`, `rd-160052`
use vstd::prelude::*;

use crate::text::{matches_at, chars_eq, find_chars, parse_i32, seqs_of, spec_find, spec_parse_i32, spec_split, spec_trim, split_chars, trim_chars, chars_of};

verus! {

/// A list of machine integers read as mathematical integers.
pub open spec fn ints(v: Seq<i32>) -> Seq<int> {
    v.map_values(|x: i32| x as int)
}

/// An optional list of machine integers read as mathematical integers.
pub open spec fn opt_ints(r: Option<Vec<i32>>) -> Option<Seq<int>> {
    match r {
        Some(v) => Some(ints(v@)),
        None => None,
    }
}

/// Whether every number of the optional list fits in an `i32`.
pub open spec fn fits_i32(r: Option<Seq<int>>) -> bool {
    match r {
        Some(v) => forall|i: int| 0 <= i < v.len() ==> i32::MIN <= #[trigger] v[i] <= i32::MAX,
        None => true,
    }
}

/// The pieces of `parts` that parse as `i32`, in order, as
/// `parts.filter_map(|p| p.parse().ok())` keeps them.
pub open spec fn spec_parse_all(parts: Seq<Seq<char>>) -> Seq<int>
    decreases parts.len(),
{
    if parts.len() == 0 {
        Seq::<int>::empty()
    } else {
        let prev = spec_parse_all(parts.drop_last());
        match spec_parse_i32(parts.last()) {
            Some(v) => prev.push(v),
            None => prev,
        }
    }
}

/// The element at `i`, or 0 where the list is shorter.
pub open spec fn at_or_zero(p: Seq<int>, i: int) -> int {
    if p.len() > i {
        p[i]
    } else {
        0
    }
}

/// An old release such as `1.20.4`, normalised to three numbers.
pub open spec fn spec_parse_old_release(s: Seq<char>) -> Option<Seq<int>> {
    let p = spec_parse_all(spec_split(s, '.'));
    if p.len() == 0 || p[0] != 1 {
        None
    } else {
        Some(seq![p[0], at_or_zero(p, 1), at_or_zero(p, 2)])
    }
}

/// A new release such as `26.1.1`: `[100 + year, release, hotfix]`.
pub open spec fn spec_parse_new_release(s: Seq<char>) -> Option<Seq<int>> {
    let parts = spec_split(s, '.');
    if parts.len() < 2 {
        None
    } else {
        match spec_parse_i32(parts[0]) {
            None => None,
            Some(year) => if year < 25 {
                None
            } else {
                match spec_parse_i32(parts[1]) {
                    None => None,
                    Some(rel) => if parts.len() >= 3 {
                        match spec_parse_i32(parts[2]) {
                            None => None,
                            Some(hotfix) => Some(seq![100 + year, rel, hotfix]),
                        }
                    } else {
                        Some(seq![100 + year, rel, 0])
                    },
                }
            },
        }
    }
}

/// The word `snapshot`.
pub open spec fn word_snapshot() -> Seq<char> {
    seq!['s', 'n', 'a', 'p', 's', 'h', 'o', 't']
}

/// The word `pre`.
pub open spec fn word_pre() -> Seq<char> {
    seq!['p', 'r', 'e']
}

/// The word `rc`.
pub open spec fn word_rc() -> Seq<char> {
    seq!['r', 'c']
}

/// A new-format tagged version `YY.R-<tag>-N`: `[kind, 100 + year, release, n]`.
pub open spec fn spec_parse_new_tagged(s: Seq<char>, tag: Seq<char>, kind: int) -> Option<Seq<int>> {
    let parts = spec_split(s, '-');
    if parts.len() != 3 || parts[1] != tag {
        None
    } else {
        let base = spec_split(parts[0], '.');
        if base.len() < 2 {
            None
        } else {
            match spec_parse_i32(base[0]) {
                None => None,
                Some(year) => if year < 25 {
                    None
                } else {
                    match spec_parse_i32(base[1]) {
                        None => None,
                        Some(rel) => match spec_parse_i32(parts[2]) {
                            None => None,
                            Some(n) => Some(seq![kind, 100 + year, rel, n]),
                        },
                    }
                },
            }
        }
    }
}

/// A new snapshot such as `26.1-snapshot-11` (kind 10).
pub open spec fn spec_parse_new_snapshot(s: Seq<char>) -> Option<Seq<int>> {
    spec_parse_new_tagged(s, word_snapshot(), 10)
}

/// A new pre-release such as `26.1-pre-1` (kind 30).
pub open spec fn spec_parse_new_pre_release(s: Seq<char>) -> Option<Seq<int>> {
    spec_parse_new_tagged(s, word_pre(), 30)
}

/// A new release candidate such as `26.1-rc-2` (kind 20).
pub open spec fn spec_parse_new_rc(s: Seq<char>) -> Option<Seq<int>> {
    spec_parse_new_tagged(s, word_rc(), 20)
}

/// An old snapshot such as `24w13a`: `[-10, 2000 + year, week, letter]`, where the
/// letter counts from 1 at `a` and is 0 when absent.
pub open spec fn spec_parse_old_snapshot(s: Seq<char>) -> Option<Seq<int>> {
    if s.len() < 5 || s[2] != 'w' {
        None
    } else {
        match spec_parse_i32(s.subrange(0, 2)) {
            None => None,
            Some(year) => match spec_parse_i32(s.subrange(3, 5)) {
                None => None,
                Some(week) => {
                    let sub = if s.len() > 5 {
                        (s[5] as int) - ('a' as int) + 1
                    } else {
                        0
                    };
                    Some(seq![-10, 2000 + year, week, sub])
                },
            },
        }
    }
}

/// The text `-pre`.
pub open spec fn pat_pre() -> Seq<char> {
    seq!['-', 'p', 'r', 'e']
}

/// The text `-rc`.
pub open spec fn pat_rc() -> Seq<char> {
    seq!['-', 'r', 'c']
}

/// `[tag, major, minor, patch, num]` from the base version text of a pre-release.
pub open spec fn spec_prerelease_of(base: Seq<char>, tag: int, num: int) -> Option<Seq<int>> {
    let p = spec_parse_all(spec_split(base, '.'));
    if p.len() == 0 {
        None
    } else {
        Some(seq![tag, p[0], at_or_zero(p, 1), at_or_zero(p, 2), num])
    }
}

/// An old pre-release or release candidate such as `1.20.4-pre1` (tag -5) or
/// `1.20.4-rc1` (tag -3).
pub open spec fn spec_parse_old_prerelease(s: Seq<char>) -> Option<Seq<int>> {
    match spec_find(s, pat_pre()) {
        Some(idx) => match spec_parse_i32(s.skip(idx + 4)) {
            None => None,
            Some(num) => spec_prerelease_of(s.take(idx), -5, num),
        },
        None => match spec_find(s, pat_rc()) {
            Some(idx) => match spec_parse_i32(s.skip(idx + 3)) {
                None => None,
                Some(num) => spec_prerelease_of(s.take(idx), -3, num),
            },
            None => None,
        },
    }
}

/// Whether `s` begins with `p`.
pub open spec fn starts_with(s: Seq<char>, p: Seq<char>) -> bool {
    p.len() <= s.len() && s.take(p.len() as int) == p
}

/// An ancient version: alpha `a1.0.16` (`[-30, ...]`), beta `b1.7.3` (`[-20, ...]`) or
/// `rd-160052` / `inf-...` (`[-40, n]`).
pub open spec fn spec_parse_ancient_version(s: Seq<char>) -> Option<Seq<int>> {
    let alpha = spec_parse_all(spec_split(s.skip(1), '.'));
    if s.len() > 0 && s[0] == 'a' && alpha.len() > 0 {
        Some(seq![-30] + alpha)
    } else if s.len() > 0 && s[0] == 'b' && alpha.len() > 0 {
        Some(seq![-20] + alpha)
    } else if starts_with(s, seq!['r', 'd', '-']) || starts_with(s, seq!['i', 'n', 'f', '-']) {
        let p = spec_parse_all(spec_split(s, '-'));
        if p.len() > 0 {
            Some(seq![-40, p[0]])
        } else {
            None
        }
    } else {
        None
    }
}

/// The comparable form of a trimmed version text: the first format, in the order
/// new snapshot, new pre-release, new RC, old snapshot, old pre-release, ancient,
/// new release, old release, that reads it.
pub open spec fn spec_parse_trimmed(v: Seq<char>) -> Option<Seq<int>> {
    if spec_parse_new_snapshot(v) is Some {
        spec_parse_new_snapshot(v)
    } else if spec_parse_new_pre_release(v) is Some {
        spec_parse_new_pre_release(v)
    } else if spec_parse_new_rc(v) is Some {
        spec_parse_new_rc(v)
    } else if spec_parse_old_snapshot(v) is Some {
        spec_parse_old_snapshot(v)
    } else if spec_parse_old_prerelease(v) is Some {
        spec_parse_old_prerelease(v)
    } else if spec_parse_ancient_version(v) is Some {
        spec_parse_ancient_version(v)
    } else if spec_parse_new_release(v) is Some {
        spec_parse_new_release(v)
    } else {
        spec_parse_old_release(v)
    }
}

/// The comparable form of a version text (surrounding whitespace ignored), or `None`
/// when no format reads it.
pub open spec fn spec_parse_game_version(version: Seq<char>) -> Option<Seq<int>> {
    spec_parse_trimmed(spec_trim(version))
}

/// Whether the comparable form of `version` can be held in `i32`s (it cannot only when
/// a new-format year is within 100 of `i32::MAX`, where the addition overflows).
pub open spec fn version_fits(version: Seq<char>) -> bool {
    fits_i32(spec_parse_game_version(version))
}

// ---------------------------------------------------------------------------
// Exec
// ---------------------------------------------------------------------------

/// The characters of `s` from `a` (inclusive) to `b` (exclusive).
pub(crate) fn sub_chars(s: &[char], a: usize, b: usize) -> (r: Vec<char>)
    requires
        a <= b <= s@.len(),
    ensures
        r@ == s@.subrange(a as int, b as int),
{
    let mut r: Vec<char> = Vec::new();
    let mut i: usize = a;
    while i < b
        invariant
            a <= i <= b <= s@.len(),
            r@ == s@.subrange(a as int, i as int),
        decreases b - i,
    {
        r.push(s[i]);
        i = i + 1;
        assert(r@ =~= s@.subrange(a as int, i as int));
    }
    r
}

/// The pieces that parse as `i32`, in order.
fn parse_all(parts: &Vec<Vec<char>>) -> (r: Vec<i32>)
    ensures
        ints(r@) == spec_parse_all(seqs_of(parts@)),
{
    let mut r: Vec<i32> = Vec::new();
    let mut i: usize = 0;
    assert(seqs_of(parts@).take(0) =~= Seq::<Seq<char>>::empty());
    while i < parts.len()
        invariant
            i <= parts@.len(),
            ints(r@) == spec_parse_all(seqs_of(parts@).take(i as int)),
        decreases parts@.len() - i,
    {
        let ghost prefix = seqs_of(parts@).take(i + 1);
        assert(prefix.drop_last() =~= seqs_of(parts@).take(i as int));
        assert(prefix.last() == parts@[i as int]@);
        match parse_i32(parts[i].as_slice()) {
            Some(v) => {
                let ghost before = r@;
                r.push(v);
                assert(ints(r@) =~= ints(before).push(v as int));
            },
            None => {},
        }
        i = i + 1;
    }
    assert(seqs_of(parts@).take(parts@.len() as int) =~= seqs_of(parts@));
    r
}

/// `[first, second or 0, third or 0]`-style list building from parsed parts.
fn at_or_zero_exec(p: &Vec<i32>, i: usize) -> (r: i32)
    ensures
        r as int == at_or_zero(ints(p@), i as int),
{
    if p.len() > i {
        p[i]
    } else {
        0
    }
}

/// Parses an old release such as `1.20.4` into `[1, minor, patch]`.
fn parse_old_release(s: &[char]) -> (r: Option<Vec<i32>>)
    ensures
        opt_ints(r) == spec_parse_old_release(s@),
{
    let parts = split_chars(s, '.');
    let p = parse_all(&parts);
    if p.len() == 0 || p[0] != 1 {
        return None;
    }
    let mut v: Vec<i32> = Vec::new();
    v.push(p[0]);
    v.push(at_or_zero_exec(&p, 1));
    v.push(at_or_zero_exec(&p, 2));
    assert(ints(v@) =~= seq![ints(p@)[0], at_or_zero(ints(p@), 1), at_or_zero(ints(p@), 2)]);
    Some(v)
}

/// Parses a new release such as `26.1.1` into `[100 + year, release, hotfix]`.
fn parse_new_release(s: &[char]) -> (r: Option<Vec<i32>>)
    requires
        fits_i32(spec_parse_new_release(s@)),
    ensures
        opt_ints(r) == spec_parse_new_release(s@),
{
    let parts = split_chars(s, '.');
    if parts.len() < 2 {
        return None;
    }
    let year = match parse_i32(parts[0].as_slice()) {
        Some(y) => y,
        None => return None,
    };
    if year < 25 {
        return None;
    }
    let rel = match parse_i32(parts[1].as_slice()) {
        Some(x) => x,
        None => return None,
    };
    let hotfix = if parts.len() >= 3 {
        match parse_i32(parts[2].as_slice()) {
            Some(x) => x,
            None => return None,
        }
    } else {
        0
    };
    let ghost res = spec_parse_new_release(s@);
    assert(res.unwrap()[0] == 100 + year);
    let mut v: Vec<i32> = Vec::new();
    v.push(100 + year);
    v.push(rel);
    v.push(hotfix);
    assert(ints(v@) =~= res.unwrap());
    Some(v)
}

/// The characters of the word `snapshot`.
fn lit_snapshot() -> (r: Vec<char>)
    ensures
        r@ == word_snapshot(),
{
    let r = vec!['s', 'n', 'a', 'p', 's', 'h', 'o', 't'];
    assert(r@ =~= word_snapshot());
    r
}

/// The characters of the word `pre`.
fn lit_pre() -> (r: Vec<char>)
    ensures
        r@ == word_pre(),
{
    let r = vec!['p', 'r', 'e'];
    assert(r@ =~= word_pre());
    r
}

/// The characters of the word `rc`.
fn lit_rc() -> (r: Vec<char>)
    ensures
        r@ == word_rc(),
{
    let r = vec!['r', 'c'];
    assert(r@ =~= word_rc());
    r
}

/// Parses a new-format tagged version `YY.R-<tag>-N` into `[kind, 100 + year, R, N]`.
fn parse_new_tagged(s: &[char], tag: &[char], kind: i32) -> (r: Option<Vec<i32>>)
    requires
        fits_i32(spec_parse_new_tagged(s@, tag@, kind as int)),
    ensures
        opt_ints(r) == spec_parse_new_tagged(s@, tag@, kind as int),
{
    let parts = split_chars(s, '-');
    if parts.len() != 3 {
        return None;
    }
    if !chars_eq(parts[1].as_slice(), tag) {
        return None;
    }
    let base = split_chars(parts[0].as_slice(), '.');
    if base.len() < 2 {
        return None;
    }
    let year = match parse_i32(base[0].as_slice()) {
        Some(y) => y,
        None => return None,
    };
    if year < 25 {
        return None;
    }
    let rel = match parse_i32(base[1].as_slice()) {
        Some(x) => x,
        None => return None,
    };
    let n = match parse_i32(parts[2].as_slice()) {
        Some(x) => x,
        None => return None,
    };
    let ghost res = spec_parse_new_tagged(s@, tag@, kind as int);
    assert(res.unwrap()[1] == 100 + year);
    let mut v: Vec<i32> = Vec::new();
    v.push(kind);
    v.push(100 + year);
    v.push(rel);
    v.push(n);
    assert(ints(v@) =~= res.unwrap());
    Some(v)
}

/// Parses a new snapshot such as `26.1-snapshot-11`.
fn parse_new_snapshot(s: &[char]) -> (r: Option<Vec<i32>>)
    requires
        fits_i32(spec_parse_new_snapshot(s@)),
    ensures
        opt_ints(r) == spec_parse_new_snapshot(s@),
{
    let tag = lit_snapshot();
    parse_new_tagged(s, tag.as_slice(), 10)
}

/// Parses a new pre-release such as `26.1-pre-1`.
fn parse_new_pre_release(s: &[char]) -> (r: Option<Vec<i32>>)
    requires
        fits_i32(spec_parse_new_pre_release(s@)),
    ensures
        opt_ints(r) == spec_parse_new_pre_release(s@),
{
    let tag = lit_pre();
    parse_new_tagged(s, tag.as_slice(), 30)
}

/// Parses a new release candidate such as `26.1-rc-2`.
fn parse_new_rc(s: &[char]) -> (r: Option<Vec<i32>>)
    requires
        fits_i32(spec_parse_new_rc(s@)),
    ensures
        opt_ints(r) == spec_parse_new_rc(s@),
{
    let tag = lit_rc();
    parse_new_tagged(s, tag.as_slice(), 20)
}

/// Parses an old snapshot such as `24w13a`.
fn parse_old_snapshot(s: &[char]) -> (r: Option<Vec<i32>>)
    requires
        fits_i32(spec_parse_old_snapshot(s@)),
    ensures
        opt_ints(r) == spec_parse_old_snapshot(s@),
{
    if s.len() < 5 {
        return None;
    }
    if s[2] != 'w' {
        return None;
    }
    let year_str = sub_chars(s, 0, 2);
    let week_str = sub_chars(s, 3, 5);
    let year = match parse_i32(year_str.as_slice()) {
        Some(y) => y,
        None => return None,
    };
    let week = match parse_i32(week_str.as_slice()) {
        Some(w) => w,
        None => return None,
    };
    assert(-9 <= year <= 99) by {
        lemma_two_char_range(year_str@);
    }
    let sub: i32 = if s.len() > 5 {
        let c5 = s[5];
        assert(c5 == s@[5]);
        let cu = char_code(c5);
        let wide: i64 = (cu as i64) - 96;
        assert(cu as int == s@[5] as int);
        assert(('a' as int) == 97);
        assert(spec_parse_old_snapshot(s@).unwrap()[3] == wide);
        wide as i32
    } else {
        0
    };
    let mut v: Vec<i32> = Vec::new();
    v.push(-10);
    v.push(2000 + year);
    v.push(week);
    v.push(sub);
    assert(ints(v@) =~= spec_parse_old_snapshot(s@).unwrap());
    Some(v)
}

/// The code point of a character.
pub fn char_code(c: char) -> (r: u32)
    ensures
        r as int == c as int,
        r <= 0x10FFFF,
{
    assert(0 <= (c as int) <= 0x10FFFF);
    c as u32
}

/// A two-character text that parses as an integer lies in -9..=99.
proof fn lemma_two_char_range(t: Seq<char>)
    requires
        t.len() == 2,
        spec_parse_i32(t) is Some,
    ensures
        -9 <= spec_parse_i32(t).unwrap() <= 99,
{
    let d = t.drop_first();
    if t[0] == '-' || t[0] == '+' {
        assert(d.len() == 1);
        assert(d.drop_last() =~= Seq::<char>::empty());
        assert(crate::text::is_digit(d[0]));
        assert(d.last() == d[0]);
        assert(crate::text::digits_value(d) == crate::text::digits_value(d.drop_last()) * 10 + ((d[0] as int) - ('0' as int)));
    } else {
        assert(crate::text::is_digit(t[0]) && crate::text::is_digit(t[1]));
        let t1 = t.drop_last();
        assert(t1.drop_last() =~= Seq::<char>::empty());
        assert(t1.last() == t[0]);
        assert(t.last() == t[1]);
        assert(crate::text::digits_value(t1) == crate::text::digits_value(t1.drop_last()) * 10 + ((t[0] as int) - ('0' as int)));
        assert(crate::text::digits_value(t) == crate::text::digits_value(t1) * 10 + ((t[1] as int) - ('0' as int)));
    }
}

/// `[tag, major, minor, patch, num]` from the base version text of a pre-release.
fn prerelease_of(base: &[char], tag: i32, num: i32) -> (r: Option<Vec<i32>>)
    ensures
        opt_ints(r) == spec_prerelease_of(base@, tag as int, num as int),
{
    let parts = split_chars(base, '.');
    let p = parse_all(&parts);
    if p.len() == 0 {
        return None;
    }
    let mut v: Vec<i32> = Vec::new();
    v.push(tag);
    v.push(p[0]);
    v.push(at_or_zero_exec(&p, 1));
    v.push(at_or_zero_exec(&p, 2));
    v.push(num);
    assert(ints(v@) =~= spec_prerelease_of(base@, tag as int, num as int).unwrap());
    Some(v)
}

/// Parses an old pre-release or release candidate such as `1.20.4-pre1`.
fn parse_old_prerelease(s: &[char]) -> (r: Option<Vec<i32>>)
    ensures
        opt_ints(r) == spec_parse_old_prerelease(s@),
{
    let pre = vec!['-', 'p', 'r', 'e'];
    assert(pre@ =~= pat_pre());
    match find_chars(s, pre.as_slice()) {
        Some(idx) => {
            proof {
                crate::text::lemma_find_from_sound(s@, pat_pre(), 0);
                assert(pat_pre().len() == 4);
                assert(matches_at(s@, pat_pre(), idx as int));
                assert(idx + 4 <= s@.len());
                assert(s@.len() == s.len());
            }
            let base = sub_chars(s, 0, idx);
            let rest = sub_chars(s, idx + 4, s.len());
            assert(base@ =~= s@.take(idx as int));
            assert(rest@ =~= s@.skip(idx + 4));
            match parse_i32(rest.as_slice()) {
                Some(num) => prerelease_of(base.as_slice(), -5, num),
                None => None,
            }
        },
        None => {
            let rc = vec!['-', 'r', 'c'];
            assert(rc@ =~= pat_rc());
            match find_chars(s, rc.as_slice()) {
                Some(idx) => {
                    proof {
                        crate::text::lemma_find_from_sound(s@, pat_rc(), 0);
                        assert(pat_rc().len() == 3);
                        assert(matches_at(s@, pat_rc(), idx as int));
                        assert(idx + 3 <= s@.len());
                        assert(s@.len() == s.len());
                    }
                    let base = sub_chars(s, 0, idx);
                    let rest = sub_chars(s, idx + 3, s.len());
                    assert(base@ =~= s@.take(idx as int));
                    assert(rest@ =~= s@.skip(idx + 3));
                    match parse_i32(rest.as_slice()) {
                        Some(num) => prerelease_of(base.as_slice(), -3, num),
                        None => None,
                    }
                },
                None => None,
            }
        },
    }
}

/// Parses an ancient version such as `a1.0.16`, `b1.7.3` or `rd-160052`.
fn parse_ancient_version(s: &[char]) -> (r: Option<Vec<i32>>)
    ensures
        opt_ints(r) == spec_parse_ancient_version(s@),
{
    let ghost alpha = spec_parse_all(spec_split(s@.skip(1), '.'));
    if s.len() > 0 && (s[0] == 'a' || s[0] == 'b') {
        let rest = sub_chars(s, 1, s.len());
        assert(rest@ =~= s@.skip(1));
        let parts = split_chars(rest.as_slice(), '.');
        let p = parse_all(&parts);
        if p.len() > 0 {
            let head: i32 = if s[0] == 'a' { -30 } else { -20 };
            let mut v: Vec<i32> = Vec::new();
            v.push(head);
            let mut i: usize = 0;
            assert(ints(v@) =~= seq![head as int] + ints(p@).take(0));
            while i < p.len()
                invariant
                    i <= p@.len(),
                    v@.len() == i + 1,
                    ints(v@) == seq![head as int] + ints(p@).take(i as int),
                decreases p@.len() - i,
            {
                let ghost before = v@;
                v.push(p[i]);
                assert(ints(p@)[i as int] == p@[i as int] as int);
                assert(ints(v@) =~= ints(before).push(p@[i as int] as int));
                assert(ints(p@).take(i + 1) =~= ints(p@).take(i as int).push(p@[i as int] as int));
                i = i + 1;
                assert(ints(v@) =~= seq![head as int] + ints(p@).take(i as int));
            }
            assert(ints(p@).take(p@.len() as int) =~= ints(p@));
            return Some(v);
        }
    }
    let rd = s.len() >= 3 && s[0] == 'r' && s[1] == 'd' && s[2] == '-';
    let inf = s.len() >= 4 && s[0] == 'i' && s[1] == 'n' && s[2] == 'f' && s[3] == '-';
    if s.len() >= 3 {
        assert(rd == (s@.take(3) == seq!['r', 'd', '-'])) by {
            if s@.take(3) == seq!['r', 'd', '-'] {
                assert(s@.take(3)[0] == 'r' && s@.take(3)[1] == 'd' && s@.take(3)[2] == '-');
            }
            if rd {
                assert(s@.take(3) =~= seq!['r', 'd', '-']);
            }
        }
    }
    if s.len() >= 4 {
        assert(inf == (s@.take(4) == seq!['i', 'n', 'f', '-'])) by {
            if s@.take(4) == seq!['i', 'n', 'f', '-'] {
                assert(s@.take(4)[0] == 'i' && s@.take(4)[1] == 'n' && s@.take(4)[2] == 'f'
                    && s@.take(4)[3] == '-');
            }
            if inf {
                assert(s@.take(4) =~= seq!['i', 'n', 'f', '-']);
            }
        }
    }
    if rd || inf {
        let parts = split_chars(s, '-');
        let p = parse_all(&parts);
        if p.len() > 0 {
            let mut v: Vec<i32> = Vec::new();
            v.push(-40);
            v.push(p[0]);
            assert(ints(v@) =~= seq![-40, ints(p@)[0]]);
            return Some(v);
        }
    }
    None
}

/// Turns a Minecraft version text into a list of integers that compare, in list order,
/// as the versions were released; `None` when no known format reads it.
pub fn parse_game_version(version: &str) -> (r: Option<Vec<i32>>)
    requires
        version_fits(version@),
    ensures
        opt_ints(r) == spec_parse_game_version(version@),
{
    let all = chars_of(version);
    let v = trim_chars(all.as_slice());
    let vs = v.as_slice();
    if let Some(result) = parse_new_snapshot(vs) {
        return Some(result);
    }
    if let Some(result) = parse_new_pre_release(vs) {
        return Some(result);
    }
    if let Some(result) = parse_new_rc(vs) {
        return Some(result);
    }
    if let Some(result) = parse_old_snapshot(vs) {
        return Some(result);
    }
    if let Some(result) = parse_old_prerelease(vs) {
        return Some(result);
    }
    if let Some(result) = parse_ancient_version(vs) {
        return Some(result);
    }
    if let Some(result) = parse_new_release(vs) {
        return Some(result);
    }
    if let Some(result) = parse_old_release(vs) {
        return Some(result);
    }
    None
}

} // verus!
