//! Comparisons between Minecraft version numbers.
use vstd::prelude::*;

use crate::mojang::game_arg_obj::GameArgObj;
use crate::mojang::version_parse::{
    ints, parse_game_version, pat_pre, pat_rc, spec_parse_all, spec_parse_ancient_version,
    spec_parse_game_version, spec_parse_new_pre_release, spec_parse_new_rc, spec_parse_new_release,
    spec_parse_new_snapshot, spec_parse_old_prerelease, spec_parse_old_release,
    spec_parse_old_snapshot, version_fits,
};
use crate::text::{
    all_digits, digits_value, lemma_find_from_sound, lemma_split_absent, spec_find,
    spec_is_whitespace, spec_parse_i32, spec_split, spec_trim, spec_trim_end, spec_trim_start,
};

verus! {

/// Lexicographic "greater than" on integer lists, as `Vec<i32>`'s `>` orders them
/// (a proper prefix is smaller).
pub open spec fn seq_gt(a: Seq<int>, b: Seq<int>) -> bool
    decreases a.len(),
{
    if a.len() == 0 {
        false
    } else if b.len() == 0 {
        true
    } else if a[0] != b[0] {
        a[0] > b[0]
    } else {
        seq_gt(a.drop_first(), b.drop_first())
    }
}

/// Whether `v1` is a later version than `v2`; false when either cannot be read.
pub open spec fn spec_is_game_version_greater(v1: Seq<char>, v2: Seq<char>) -> bool {
    match (spec_parse_game_version(v1), spec_parse_game_version(v2)) {
        (Some(a), Some(b)) => seq_gt(a, b),
        _ => false,
    }
}

/// Whether `v` reads as a version at or after the version whose comparable form is
/// `base`.
pub open spec fn spec_is_at_least(v: Seq<char>, base: Seq<int>) -> bool {
    match spec_parse_game_version(v) {
        Some(a) => seq_gt(a, base) || a == base,
        None => false,
    }
}

/// The comparable form of `1.17`.
pub open spec fn v117() -> Seq<int> {
    seq![1, 17, 0]
}

/// The comparable form of `1.20`.
pub open spec fn v120() -> Seq<int> {
    seq![1, 20, 0]
}

/// The comparable form of `1.20.2`.
pub open spec fn v1202() -> Seq<int> {
    seq![1, 20, 2]
}

proof fn lemma_gt_step(a: Seq<int>, b: Seq<int>, i: int)
    requires
        0 <= i < a.len(),
        i < b.len(),
        a[i] == b[i],
    ensures
        seq_gt(a.skip(i), b.skip(i)) == seq_gt(a.skip(i + 1), b.skip(i + 1)),
{
    assert(a.skip(i).drop_first() =~= a.skip(i + 1));
    assert(b.skip(i).drop_first() =~= b.skip(i + 1));
}

/// `a > b` on integer lists.
fn vec_gt(a: &Vec<i32>, b: &Vec<i32>) -> (r: bool)
    ensures
        r == seq_gt(ints(a@), ints(b@)),
{
    let ghost ia = ints(a@);
    let ghost ib = ints(b@);
    let mut i: usize = 0;
    assert(ia.skip(0) =~= ia);
    assert(ib.skip(0) =~= ib);
    while i < a.len() && i < b.len() && a[i] == b[i]
        invariant
            ia == ints(a@),
            ib == ints(b@),
            i <= a@.len(),
            i <= b@.len(),
            seq_gt(ia, ib) == seq_gt(ia.skip(i as int), ib.skip(i as int)),
        decreases a@.len() - i,
    {
        proof {
            lemma_gt_step(ia, ib, i as int);
        }
        i = i + 1;
    }
    if i >= a.len() {
        assert(ia.skip(i as int).len() == 0);
        false
    } else if i >= b.len() {
        assert(ib.skip(i as int).len() == 0);
        true
    } else {
        assert(ia.skip(i as int)[0] == a@[i as int] as int);
        assert(ib.skip(i as int)[0] == b@[i as int] as int);
        a[i] > b[i]
    }
}

/// `a == b` on integer lists.
fn vec_eq(a: &Vec<i32>, b: &Vec<i32>) -> (r: bool)
    ensures
        r == (ints(a@) == ints(b@)),
{
    if a.len() != b.len() {
        assert(ints(a@).len() != ints(b@).len());
        return false;
    }
    let mut i: usize = 0;
    while i < a.len()
        invariant
            a@.len() == b@.len(),
            i <= a@.len(),
            forall|j: int| 0 <= j < i ==> a@[j] == b@[j],
        decreases a@.len() - i,
    {
        if a[i] != b[i] {
            assert(ints(a@)[i as int] != ints(b@)[i as int]);
            return false;
        }
        i = i + 1;
    }
    assert(ints(a@) =~= ints(b@));
    true
}

/// Whether `v1` is a later version than `v2`; false when either cannot be read.
pub fn is_game_version_greater(v1: &str, v2: &str) -> (r: bool)
    requires
        version_fits(v1@),
        version_fits(v2@),
    ensures
        r == spec_is_game_version_greater(v1@, v2@),
{
    let parts1 = parse_game_version(v1);
    let parts2 = parse_game_version(v2);
    match (parts1, parts2) {
        (Some(p1), Some(p2)) => vec_gt(&p1, &p2),
        _ => false,
    }
}

/// Whether `version` is at or after the version whose comparable form is `base`.
fn is_at_least(version: &str, base: Vec<i32>) -> (r: bool)
    requires
        version_fits(version@),
    ensures
        r == spec_is_at_least(version@, ints(base@)),
{
    match parse_game_version(version) {
        Some(p) => vec_gt(&p, &base) || vec_eq(&p, &base),
        None => false,
    }
}

/// Whether `version` is 1.17 or later.
pub fn is_game_version_117(version: String) -> (r: bool)
    requires
        version_fits(version@),
    ensures
        r == spec_is_at_least(version@, v117()),
{
    let base = vec![1i32, 17, 0];
    assert(ints(base@) =~= v117());
    is_at_least(version.as_str(), base)
}

/// Whether `version` is 1.20 or later: at or after `[1, 20, 0]`, the comparable form of
/// the text `1.20` (see `law_v120_is_1_20`).
pub fn is_game_version_120(version: String) -> (r: bool)
    requires
        version_fits(version@),
    ensures
        r == spec_is_at_least(version@, v120()),
{
    let base = vec![1i32, 20, 0];
    assert(ints(base@) =~= v120());
    is_at_least(version.as_str(), base)
}

/// Whether `version` is 1.20.2 or later.
pub fn is_game_version_1202(version: String) -> (r: bool)
    requires
        version_fits(version@),
    ensures
        r == spec_is_at_least(version@, v1202()),
{
    let base = vec![1i32, 20, 2];
    assert(ints(base@) =~= v1202());
    is_at_least(version.as_str(), base)
}

impl GameArgObj {
    /// Whether the launch description uses the second argument format (launcher
    /// version above 18).
    pub fn is_game_version_v2(&self) -> (r: bool)
        ensures
            r == (self.minimum_launcher_version > 18),
    {
        self.minimum_launcher_version > 18
    }
}

// ---------------------------------------------------------------------------
// Laws
// ---------------------------------------------------------------------------

/// No integer list is greater than itself.
pub proof fn lemma_seq_gt_irreflexive(a: Seq<int>)
    ensures
        !seq_gt(a, a),
    decreases a.len(),
{
    if a.len() > 0 {
        lemma_seq_gt_irreflexive(a.drop_first());
    }
}

/// Of two integer lists, at most one is greater than the other.
pub proof fn lemma_seq_gt_asymmetric(a: Seq<int>, b: Seq<int>)
    ensures
        !(seq_gt(a, b) && seq_gt(b, a)),
    decreases a.len(),
{
    if a.len() > 0 && b.len() > 0 && a[0] == b[0] {
        lemma_seq_gt_asymmetric(a.drop_first(), b.drop_first());
    }
}

/// The order on integer lists is transitive.
pub proof fn lemma_seq_gt_transitive(a: Seq<int>, b: Seq<int>, c: Seq<int>)
    requires
        seq_gt(a, b),
        seq_gt(b, c),
    ensures
        seq_gt(a, c),
    decreases a.len(),
{
    if a.len() > 0 && b.len() > 0 && c.len() > 0 && a[0] == b[0] && b[0] == c[0] {
        lemma_seq_gt_transitive(a.drop_first(), b.drop_first(), c.drop_first());
    }
}

/// Two different integer lists are ordered one way or the other.
pub proof fn lemma_seq_gt_total(a: Seq<int>, b: Seq<int>)
    requires
        a != b,
    ensures
        seq_gt(a, b) || seq_gt(b, a),
    decreases a.len(),
{
    if a.len() == 0 {
        if b.len() == 0 {
            assert(a =~= b);
        }
    } else if b.len() > 0 && a[0] == b[0] {
        if a.drop_first() == b.drop_first() {
            assert(a =~= seq![a[0]] + a.drop_first());
            assert(b =~= seq![b[0]] + b.drop_first());
        }
        lemma_seq_gt_total(a.drop_first(), b.drop_first());
    }
}

/// No version is later than itself.
pub proof fn lemma_version_greater_irreflexive(v: Seq<char>)
    ensures
        !spec_is_game_version_greater(v, v),
{
    if let Some(a) = spec_parse_game_version(v) {
        lemma_seq_gt_irreflexive(a);
    }
}

/// Of two versions, at most one is later than the other.
pub proof fn lemma_version_greater_asymmetric(v1: Seq<char>, v2: Seq<char>)
    ensures
        !(spec_is_game_version_greater(v1, v2) && spec_is_game_version_greater(v2, v1)),
{
    if let (Some(a), Some(b)) = (spec_parse_game_version(v1), spec_parse_game_version(v2)) {
        lemma_seq_gt_asymmetric(a, b);
    }
}

/// "Later than" between versions is transitive.
pub proof fn lemma_version_greater_transitive(v1: Seq<char>, v2: Seq<char>, v3: Seq<char>)
    requires
        spec_is_game_version_greater(v1, v2),
        spec_is_game_version_greater(v2, v3),
    ensures
        spec_is_game_version_greater(v1, v3),
{
    let a = spec_parse_game_version(v1).unwrap();
    let b = spec_parse_game_version(v2).unwrap();
    let c = spec_parse_game_version(v3).unwrap();
    lemma_seq_gt_transitive(a, b, c);
}

/// Two readable versions with different comparable forms are ordered one way or the
/// other.
pub proof fn lemma_version_greater_total(v1: Seq<char>, v2: Seq<char>)
    requires
        spec_parse_game_version(v1) is Some,
        spec_parse_game_version(v2) is Some,
        spec_parse_game_version(v1) != spec_parse_game_version(v2),
    ensures
        spec_is_game_version_greater(v1, v2) || spec_is_game_version_greater(v2, v1),
{
    lemma_seq_gt_total(spec_parse_game_version(v1).unwrap(), spec_parse_game_version(v2).unwrap());
}

/// A version at or after 1.20.2 is at or after 1.20, and one at or after 1.20 is at or
/// after 1.17.
pub proof fn lemma_version_thresholds_nested(v: Seq<char>)
    ensures
        spec_is_at_least(v, v1202()) ==> spec_is_at_least(v, v120()),
        spec_is_at_least(v, v120()) ==> spec_is_at_least(v, v117()),
{
    assert(seq_gt(v1202(), v120())) by {
        reveal_with_fuel(seq_gt, 4);
        assert(v1202().drop_first().drop_first() =~= seq![2int]);
        assert(v120().drop_first().drop_first() =~= seq![0int]);
        assert(v1202().drop_first() =~= seq![20int, 2]);
        assert(v120().drop_first() =~= seq![20int, 0]);
    }
    assert(seq_gt(v120(), v117())) by {
        reveal_with_fuel(seq_gt, 3);
        assert(v120().drop_first() =~= seq![20int, 0]);
        assert(v117().drop_first() =~= seq![17int, 0]);
    }
    if let Some(a) = spec_parse_game_version(v) {
        if seq_gt(a, v1202()) {
            lemma_seq_gt_transitive(a, v1202(), v120());
        }
        if seq_gt(a, v120()) {
            lemma_seq_gt_transitive(a, v120(), v117());
        }
    }
}

} // verus!

verus! {

/// The comparable form of the text `1.20` is `[1, 20, 0]`, the base that
/// `is_game_version_120` compares with.
pub proof fn law_v120_is_1_20()
    ensures
        spec_parse_game_version(seq!['1', '.', '2', '0']) == Some(v120()),
{
    let s = seq!['1', '.', '2', '0'];
    reveal_with_fuel(spec_trim_start, 2);
    reveal_with_fuel(spec_trim_end, 2);
    assert(!spec_is_whitespace('1'));
    assert(!spec_is_whitespace('0'));
    assert(s.last() == '0');
    assert(spec_trim(s) == s);
    lemma_split_absent(s, '-');
    assert(spec_parse_new_snapshot(s) is None);
    assert(spec_parse_new_pre_release(s) is None);
    assert(spec_parse_new_rc(s) is None);
    assert(spec_parse_old_snapshot(s) is None);
    lemma_find_from_sound(s, pat_pre(), 0);
    lemma_find_from_sound(s, pat_rc(), 0);
    assert(spec_find(s, pat_pre()) is None) by {
        if let Some(k) = spec_find(s, pat_pre()) {
            assert(s.subrange(k, k + 4)[0] == s[k]);
        }
    }
    assert(spec_find(s, pat_rc()) is None) by {
        if let Some(k) = spec_find(s, pat_rc()) {
            assert(s.subrange(k, k + 3)[0] == s[k]);
        }
    }
    assert(spec_parse_old_prerelease(s) is None);
    assert(s.take(3)[0] == '1');
    assert(s.take(4)[0] == '1');
    let one = seq!['1'];
    let twenty = seq!['2', '0'];
    reveal_with_fuel(spec_split, 5);
    assert(s.drop_last() =~= seq!['1', '.', '2']);
    assert(s.drop_last().drop_last() =~= seq!['1', '.']);
    assert(s.drop_last().drop_last().drop_last() =~= seq!['1']);
    assert(seq!['1'].drop_last() =~= Seq::<char>::empty());
    assert(spec_split(Seq::<char>::empty(), '.') =~= seq![Seq::<char>::empty()]);
    assert(spec_split(seq!['1'], '.') =~= seq![one]);
    assert(spec_split(seq!['1', '.'], '.') =~= seq![one, Seq::<char>::empty()]);
    assert(spec_split(seq!['1', '.', '2'], '.') =~= seq![one, seq!['2']]);
    let prev = spec_split(seq!['1', '.', '2'], '.');
    assert(prev.last() =~= seq!['2']);
    assert(seq!['2'].push('0') =~= twenty);
    assert(prev.update(prev.len() - 1, prev.last().push('0')) =~= seq![one, twenty]);
    assert(spec_split(s, '.') == spec_split(s.drop_last(), '.').update(
        spec_split(s.drop_last(), '.').len() - 1,
        spec_split(s.drop_last(), '.').last().push(s.last()),
    ));
    assert(spec_split(s, '.') =~= seq![one, twenty]);
    assert(all_digits(one));
    assert(all_digits(twenty));
    reveal_with_fuel(digits_value, 3);
    assert(one.drop_last() =~= Seq::<char>::empty());
    assert(twenty.drop_last() =~= seq!['2']);
    assert(seq!['2'].drop_last() =~= Seq::<char>::empty());
    assert(digits_value(one) == 1);
    assert(digits_value(twenty) == 20);
    assert(spec_parse_i32(one) == Some(1int));
    assert(spec_parse_i32(twenty) == Some(20int));
    let alpha = spec_parse_all(spec_split(s.skip(1), '.'));
    assert(spec_parse_ancient_version(s) is None);
    assert(spec_parse_new_release(s) is None);
    reveal_with_fuel(spec_parse_all, 3);
    assert(seq![one, twenty].drop_last() =~= seq![one]);
    assert(seq![one].drop_last() =~= Seq::<Seq<char>>::empty());
    assert(spec_parse_all(seq![one, twenty]) =~= seq![1int, 20]);
    assert(spec_parse_old_release(s) == Some(seq![1int, 20, 0]));
    assert(seq![1int, 20, 0] =~= v120());
}

} // verus!

verus! {

/// Old pre-releases, release candidates and releases are ordered pre-release < release
/// candidate < release, whatever their numbers: the comparable form of any text read
/// as a release candidate (`-rc`, with no `-pre`) is above that of any text read as a
/// pre-release (`-pre`), and the comparable form of any old release is above both.
pub proof fn law_prerelease_order(rc: Seq<char>, pre: Seq<char>, release: Seq<char>)
    ensures
        spec_parse_old_prerelease(rc) is Some && spec_find(rc, pat_pre()) is None
            && spec_parse_old_prerelease(pre) is Some && spec_find(pre, pat_pre()) is Some
            ==> seq_gt(spec_parse_old_prerelease(rc).unwrap(), spec_parse_old_prerelease(pre).unwrap()),
        spec_parse_old_release(release) is Some && spec_parse_old_prerelease(rc) is Some
            ==> seq_gt(spec_parse_old_release(release).unwrap(), spec_parse_old_prerelease(rc).unwrap()),
        spec_parse_old_prerelease(pre) matches Some(a) ==> (a[0] == -5 <==> spec_find(pre, pat_pre()) is Some),
        spec_parse_old_prerelease(pre) matches Some(a) ==> (a[0] == -3 <==> spec_find(pre, pat_pre()) is None),
{
}

} // verus!

verus! {

/// New-format versions are ordered snapshot < release candidate < pre-release <
/// release, whatever their numbers: the comparable form of any text read as a new
/// snapshot is below that of any new release candidate, which is below that of any new
/// pre-release, which is below that of any new release.
pub proof fn law_new_format_order(snapshot: Seq<char>, rc: Seq<char>, pre: Seq<char>, release: Seq<char>)
    ensures
        spec_parse_new_snapshot(snapshot) is Some && spec_parse_new_rc(rc) is Some ==> seq_gt(
            spec_parse_new_rc(rc).unwrap(),
            spec_parse_new_snapshot(snapshot).unwrap(),
        ),
        spec_parse_new_rc(rc) is Some && spec_parse_new_pre_release(pre) is Some ==> seq_gt(
            spec_parse_new_pre_release(pre).unwrap(),
            spec_parse_new_rc(rc).unwrap(),
        ),
        spec_parse_new_pre_release(pre) is Some && spec_parse_new_release(release) is Some ==> seq_gt(
            spec_parse_new_release(release).unwrap(),
            spec_parse_new_pre_release(pre).unwrap(),
        ),
{
}

} // verus!
