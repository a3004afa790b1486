//! Character-level text handling: splitting, searching, trimming and
//! integer parsing over the `Seq<char>` view of strings.
use vstd::prelude::*;

verus! {

broadcast use vstd::string::group_string_axioms;

// ---------------------------------------------------------------------------
// Conversions between `&str` / `String` and `Vec<char>`
// ---------------------------------------------------------------------------

/// `String::push`: appends one character.
#[verifier::external_body]
pub(crate) fn push_char(s: &mut String, c: char)
    ensures
        final(s)@ == old(s)@.push(c),
{
    s.push(c);
}

/// The characters of a string slice, in order.
pub fn chars_of(s: &str) -> (v: Vec<char>)
    ensures
        v@ == s@,
{
    let n = s.unicode_len();
    let mut v: Vec<char> = Vec::new();
    let mut i: usize = 0;
    while i < n
        invariant
            n == s@.len(),
            i <= n,
            v@ == s@.take(i as int),
        decreases n - i,
    {
        let c = s.get_char(i);
        v.push(c);
        i = i + 1;
        assert(v@ =~= s@.take(i as int));
    }
    assert(v@ =~= s@);
    v
}

/// A string made of the given characters.
pub fn string_of(v: &[char]) -> (s: String)
    ensures
        s@ == v@,
{
    let mut s = String::new();
    let mut i: usize = 0;
    while i < v.len()
        invariant
            i <= v@.len(),
            s@ == v@.take(i as int),
        decreases v@.len() - i,
    {
        push_char(&mut s, v[i]);
        i = i + 1;
        assert(s@ =~= v@.take(i as int));
    }
    assert(s@ =~= v@);
    s
}

/// A string holding the given characters of `v`, from `start` (inclusive) to `end` (exclusive).
pub fn string_of_range(v: &[char], start: usize, end: usize) -> (s: String)
    requires
        start <= end <= v@.len(),
    ensures
        s@ == v@.subrange(start as int, end as int),
{
    let mut s = String::new();
    let mut i: usize = start;
    while i < end
        invariant
            start <= i <= end <= v@.len(),
            s@ == v@.subrange(start as int, i as int),
        decreases end - i,
    {
        push_char(&mut s, v[i]);
        i = i + 1;
        assert(s@ =~= v@.subrange(start as int, i as int));
    }
    s
}

/// Appends characters to a string.
pub fn push_chars(s: &mut String, v: &[char])
    ensures
        final(s)@ == old(s)@ + v@,
{
    let mut i: usize = 0;
    while i < v.len()
        invariant
            i <= v@.len(),
            s@ == old(s)@ + v@.take(i as int),
        decreases v@.len() - i,
    {
        push_char(s, v[i]);
        i = i + 1;
        assert(s@ =~= old(s)@ + v@.take(i as int));
    }
    assert(v@.take(v@.len() as int) =~= v@);
}

/// Appends a string slice to a string.
pub fn push_str(s: &mut String, t: &str)
    ensures
        final(s)@ == old(s)@ + t@,
{
    let v = chars_of(t);
    push_chars(s, v.as_slice());
}

/// `s` with every `from` replaced by `to`.
pub open spec fn spec_replace_char(s: Seq<char>, from: char, to: char) -> Seq<char> {
    s.map_values(|c: char| if c == from { to } else { c })
}

/// Replaces every `from` by `to`.
pub fn replace_char(s: &[char], from: char, to: char) -> (r: Vec<char>)
    ensures
        r@ == spec_replace_char(s@, from, to),
{
    let mut r: Vec<char> = Vec::new();
    let mut i: usize = 0;
    while i < s.len()
        invariant
            i <= s@.len(),
            r@ == spec_replace_char(s@.take(i as int), from, to),
        decreases s@.len() - i,
    {
        let c = s[i];
        r.push(if c == from { to } else { c });
        i = i + 1;
        assert(r@ =~= spec_replace_char(s@.take(i as int), from, to));
    }
    assert(s@.take(s@.len() as int) =~= s@);
    r
}

/// A copy of a string.
pub fn copy_str(s: &str) -> (r: String)
    ensures
        r@ == s@,
{
    let v = chars_of(s);
    string_of(v.as_slice())
}

/// The concatenation of two strings.
pub fn concat2(a: &str, b: &str) -> (r: String)
    ensures
        r@ == a@ + b@,
{
    let mut r = copy_str(a);
    let v = chars_of(b);
    let mut i: usize = 0;
    while i < v.len()
        invariant
            i <= v@.len(),
            v@ == b@,
            r@ == a@ + b@.take(i as int),
        decreases v@.len() - i,
    {
        push_char(&mut r, v[i]);
        i = i + 1;
        assert(r@ =~= a@ + b@.take(i as int));
    }
    assert(b@.take(v@.len() as int) =~= b@);
    r
}

/// Whether two strings hold the same characters.
pub fn str_eq(a: &str, b: &str) -> (r: bool)
    ensures
        r == (a@ == b@),
{
    let x = chars_of(a);
    let y = chars_of(b);
    chars_eq(x.as_slice(), y.as_slice())
}

/// Whether two character slices are equal.
pub fn chars_eq(a: &[char], b: &[char]) -> (r: bool)
    ensures
        r == (a@ == b@),
{
    if a.len() != b.len() {
        return false;
    }
    let mut i: usize = 0;
    while i < a.len()
        invariant
            a@.len() == b@.len(),
            i <= a@.len(),
            forall|j: int| 0 <= j < i ==> a@[j] == b@[j],
        decreases a@.len() - i,
    {
        if a[i] != b[i] {
            return false;
        }
        i = i + 1;
    }
    assert(a@ =~= b@);
    true
}

// ---------------------------------------------------------------------------
// Splitting on a separator character
// ---------------------------------------------------------------------------

/// The pieces of `s` between occurrences of `sep`, in order, as `str::split` with a
/// character pattern gives them (an empty text gives one empty piece).
pub open spec fn spec_split(s: Seq<char>, sep: char) -> Seq<Seq<char>>
    decreases s.len(),
{
    if s.len() == 0 {
        seq![Seq::<char>::empty()]
    } else {
        let prev = spec_split(s.drop_last(), sep);
        if s.last() == sep {
            prev.push(Seq::<char>::empty())
        } else {
            prev.update(prev.len() - 1, prev.last().push(s.last()))
        }
    }
}

/// `spec_split` never yields an empty list of pieces.
pub proof fn lemma_split_nonempty(s: Seq<char>, sep: char)
    ensures
        spec_split(s, sep).len() >= 1,
    decreases s.len(),
{
    if s.len() > 0 {
        lemma_split_nonempty(s.drop_last(), sep);
    }
}

/// When `sep` does not occur in `s`, splitting gives `s` itself.
pub proof fn lemma_split_absent(s: Seq<char>, sep: char)
    requires
        forall|i: int| 0 <= i < s.len() ==> s[i] != sep,
    ensures
        spec_split(s, sep) == seq![s],
    decreases s.len(),
{
    if s.len() > 0 {
        lemma_split_absent(s.drop_last(), sep);
        assert(s.drop_last().push(s.last()) =~= s);
        assert(spec_split(s, sep) =~= seq![s]);
    } else {
        assert(s =~= Seq::<char>::empty());
    }
}

/// The character views of a list of character vectors.
pub open spec fn seqs_of(v: Seq<Vec<char>>) -> Seq<Seq<char>> {
    v.map_values(|x: Vec<char>| x@)
}

/// Splits a character slice on `sep`.
pub fn split_chars(s: &[char], sep: char) -> (r: Vec<Vec<char>>)
    ensures
        seqs_of(r@) == spec_split(s@, sep),
{
    let mut r: Vec<Vec<char>> = Vec::new();
    let mut cur: Vec<char> = Vec::new();
    let mut i: usize = 0;
    assert(s@.take(0) =~= Seq::<char>::empty());
    while i < s.len()
        invariant
            i <= s@.len(),
            seqs_of(r@).push(cur@) == spec_split(s@.take(i as int), sep),
        decreases s@.len() - i,
    {
        let c = s[i];
        let ghost prev = spec_split(s@.take(i as int), sep);
        assert(s@.take(i + 1).drop_last() =~= s@.take(i as int));
        if c == sep {
            let done = cur;
            let ghost before = r@;
            r.push(done);
            assert(seqs_of(r@) =~= seqs_of(before).push(done@));
            cur = Vec::new();
            assert(seqs_of(r@).push(cur@) =~= prev.push(Seq::<char>::empty()));
        } else {
            cur.push(c);
            assert(seqs_of(r@).push(cur@) =~= prev.update(prev.len() - 1, prev.last().push(c)));
        }
        i = i + 1;
    }
    assert(s@.take(s@.len() as int) =~= s@);
    let ghost before = r@;
    r.push(cur);
    assert(seqs_of(r@) =~= seqs_of(before).push(r@.last()@));
    r
}

/// Splits a string slice on `sep`, as `str::split` with a character pattern.
pub fn split_str(s: &str, sep: char) -> (r: Vec<Vec<char>>)
    ensures
        seqs_of(r@) == spec_split(s@, sep),
{
    let v = chars_of(s);
    split_chars(v.as_slice(), sep)
}

// ---------------------------------------------------------------------------
// Searching
// ---------------------------------------------------------------------------

/// Whether `p` occurs in `s` starting at position `i`.
pub open spec fn matches_at(s: Seq<char>, p: Seq<char>, i: int) -> bool {
    0 <= i && i + p.len() <= s.len() && s.subrange(i, i + p.len()) == p
}

/// The first position at or after `i` where `p` occurs in `s`.
pub open spec fn spec_find_from(s: Seq<char>, p: Seq<char>, i: int) -> Option<int>
    decreases s.len() + 1 - i,
{
    if i < 0 || i + p.len() > s.len() {
        None
    } else if matches_at(s, p, i) {
        Some(i)
    } else {
        spec_find_from(s, p, i + 1)
    }
}

/// The first position where `p` occurs in `s`, as `str::find` gives it (counted in
/// characters rather than bytes).
pub open spec fn spec_find(s: Seq<char>, p: Seq<char>) -> Option<int> {
    spec_find_from(s, p, 0)
}

/// A position found by `spec_find_from` is a match at or after the start.
pub proof fn lemma_find_from_sound(s: Seq<char>, p: Seq<char>, i: int)
    ensures
        spec_find_from(s, p, i) matches Some(k) ==> i <= k && matches_at(s, p, k),
    decreases s.len() + 1 - i,
{
    if !(i < 0 || i + p.len() > s.len()) && !matches_at(s, p, i) {
        lemma_find_from_sound(s, p, i + 1);
    }
}

/// Whether `p` occurs in `s` at position `i` (exec).
fn match_at(s: &[char], p: &[char], i: usize) -> (r: bool)
    requires
        i + p.len() <= s.len(),
    ensures
        r == matches_at(s@, p@, i as int),
{
    let mut j: usize = 0;
    while j < p.len()
        invariant
            i + p.len() <= s.len(),
            j <= p@.len(),
            forall|k: int| 0 <= k < j ==> s@[i + k] == p@[k],
        decreases p@.len() - j,
    {
        if s[i + j] != p[j] {
            assert(s@.subrange(i as int, i + p@.len())[j as int] != p@[j as int]);
            return false;
        }
        j = j + 1;
    }
    assert(s@.subrange(i as int, i + p@.len()) =~= p@);
    true
}

/// The first position of `p` in `s`.
pub fn find_chars(s: &[char], p: &[char]) -> (r: Option<usize>)
    ensures
        match r {
            Some(k) => spec_find(s@, p@) == Some(k as int),
            None => spec_find(s@, p@) is None,
        },
{
    if p.len() > s.len() {
        return None;
    }
    let mut i: usize = 0;
    let last = s.len() - p.len();
    while i <= last
        invariant
            p@.len() <= s@.len(),
            last == s@.len() - p@.len(),
            i <= last + 1,
            spec_find_from(s@, p@, 0) == spec_find_from(s@, p@, i as int),
        decreases last + 1 - i,
    {
        if match_at(s, p, i) {
            return Some(i);
        }
        if i == last {
            assert(spec_find_from(s@, p@, i + 1) is None);
            return None;
        }
        i = i + 1;
    }
    None
}

/// The first position of the character `c` in `s`.
pub fn find_char(s: &[char], c: char) -> (r: Option<usize>)
    ensures
        match r {
            Some(k) => spec_find(s@, seq![c]) == Some(k as int),
            None => spec_find(s@, seq![c]) is None,
        },
{
    let mut p: Vec<char> = Vec::new();
    p.push(c);
    assert(p@ =~= seq![c]);
    find_chars(s, p.as_slice())
}


// ---------------------------------------------------------------------------
// Whitespace and trimming
// ---------------------------------------------------------------------------

/// The characters that Unicode gives the White_Space property (those for which
/// `char::is_whitespace` holds).
pub open spec fn spec_is_whitespace(c: char) -> bool {
    ||| ('\t' <= c && c <= '\r')
    ||| c == ' '
    ||| c == '\u{85}'
    ||| c == '\u{a0}'
    ||| c == '\u{1680}'
    ||| ('\u{2000}' <= c && c <= '\u{200a}')
    ||| c == '\u{2028}'
    ||| c == '\u{2029}'
    ||| c == '\u{202f}'
    ||| c == '\u{205f}'
    ||| c == '\u{3000}'
}

/// Whether `c` is a whitespace character.
pub fn is_whitespace(c: char) -> (r: bool)
    ensures
        r == spec_is_whitespace(c),
{
    ('\t' <= c && c <= '\r') || c == ' ' || c == '\u{85}' || c == '\u{a0}' || c == '\u{1680}'
        || ('\u{2000}' <= c && c <= '\u{200a}') || c == '\u{2028}' || c == '\u{2029}'
        || c == '\u{202f}' || c == '\u{205f}' || c == '\u{3000}'
}

/// `s` without its leading whitespace.
pub open spec fn spec_trim_start(s: Seq<char>) -> Seq<char>
    decreases s.len(),
{
    if s.len() > 0 && spec_is_whitespace(s[0]) {
        spec_trim_start(s.drop_first())
    } else {
        s
    }
}

/// `s` without its trailing whitespace.
pub open spec fn spec_trim_end(s: Seq<char>) -> Seq<char>
    decreases s.len(),
{
    if s.len() > 0 && spec_is_whitespace(s.last()) {
        spec_trim_end(s.drop_last())
    } else {
        s
    }
}

/// `s` without leading and trailing whitespace, as `str::trim` gives it.
pub open spec fn spec_trim(s: Seq<char>) -> Seq<char> {
    spec_trim_end(spec_trim_start(s))
}

proof fn lemma_trim_start_skip(s: Seq<char>, i: int)
    requires
        0 <= i <= s.len(),
        forall|j: int| 0 <= j < i ==> spec_is_whitespace(s[j]),
    ensures
        spec_trim_start(s) == spec_trim_start(s.skip(i)),
    decreases i,
{
    if i > 0 {
        assert(s.drop_first().skip(i - 1) =~= s.skip(i));
        lemma_trim_start_skip(s.drop_first(), i - 1);
    } else {
        assert(s.skip(0) =~= s);
    }
}

proof fn lemma_trim_end_take(s: Seq<char>, i: int)
    requires
        0 <= i <= s.len(),
        forall|j: int| i <= j < s.len() ==> spec_is_whitespace(s[j]),
    ensures
        spec_trim_end(s) == spec_trim_end(s.take(i)),
    decreases s.len() - i,
{
    if i < s.len() {
        assert(s.drop_last().take(i) =~= s.take(i));
        lemma_trim_end_take(s.drop_last(), i);
    } else {
        assert(s.take(i) =~= s);
    }
}

/// The characters of `s` without leading and trailing whitespace.
pub fn trim_chars(s: &[char]) -> (r: Vec<char>)
    ensures
        r@ == spec_trim(s@),
{
    let n = s.len();
    let mut a: usize = 0;
    while a < n && is_whitespace(s[a])
        invariant
            a <= n == s@.len(),
            forall|j: int| 0 <= j < a ==> spec_is_whitespace(s@[j]),
        decreases n - a,
    {
        a = a + 1;
    }
    proof {
        lemma_trim_start_skip(s@, a as int);
        if a < n {
            assert(spec_trim_start(s@.skip(a as int)) == s@.skip(a as int));
        } else {
            assert(s@.skip(a as int) =~= Seq::<char>::empty());
        }
    }
    let ghost st = s@.skip(a as int);
    let mut b: usize = n;
    while b > a && is_whitespace(s[b - 1])
        invariant
            a <= b <= n == s@.len(),
            st == s@.skip(a as int),
            forall|j: int| b <= j < n ==> spec_is_whitespace(s@[j]),
        decreases b - a,
    {
        b = b - 1;
    }
    proof {
        assert forall|j: int| (b - a) <= j < st.len() implies spec_is_whitespace(st[j]) by {
            assert(st[j] == s@[a + j]);
        }
        lemma_trim_end_take(st, (b - a) as int);
        assert(st.take((b - a) as int) =~= s@.subrange(a as int, b as int));
        if b > a {
            assert(spec_trim_end(st.take((b - a) as int)) == st.take((b - a) as int));
        } else {
            assert(st.take(0) =~= Seq::<char>::empty());
        }
    }
    let mut r: Vec<char> = Vec::new();
    let mut i: usize = a;
    while i < b
        invariant
            a <= i <= b <= n == s@.len(),
            r@ == s@.subrange(a as int, i as int),
        decreases b - i,
    {
        r.push(s[i]);
        i = i + 1;
        assert(r@ =~= s@.subrange(a as int, i as int));
    }
    r
}

// ---------------------------------------------------------------------------
// Integer parsing
// ---------------------------------------------------------------------------

/// Whether `c` is one of `0`..`9`.
pub open spec fn is_digit(c: char) -> bool {
    '0' <= c && c <= '9'
}

/// Whether every character of `s` is an ASCII digit.
pub open spec fn all_digits(s: Seq<char>) -> bool {
    forall|i: int| 0 <= i < s.len() ==> is_digit(#[trigger] s[i])
}

/// The number that the decimal digits of `s` spell.
pub open spec fn digits_value(s: Seq<char>) -> int
    decreases s.len(),
{
    if s.len() == 0 {
        0
    } else {
        digits_value(s.drop_last()) * 10 + ((s.last() as int) - ('0' as int))
    }
}

/// The integer that `s` denotes, as Rust's `FromStr` for signed integers reads it: an
/// optional `+` or `-`, then at least one ASCII digit and nothing else.
pub open spec fn spec_parse_int(s: Seq<char>) -> Option<int> {
    if s.len() == 0 {
        None
    } else if s[0] == '-' || s[0] == '+' {
        let d = s.drop_first();
        if d.len() > 0 && all_digits(d) {
            if s[0] == '-' {
                Some(-digits_value(d))
            } else {
                Some(digits_value(d))
            }
        } else {
            None
        }
    } else if all_digits(s) {
        Some(digits_value(s))
    } else {
        None
    }
}

/// `spec_parse_int`, kept only where the value lies in `lo..=hi`.
pub open spec fn spec_parse_in(s: Seq<char>, lo: int, hi: int) -> Option<int> {
    match spec_parse_int(s) {
        Some(v) => if lo <= v && v <= hi {
            Some(v)
        } else {
            None
        },
        None => None,
    }
}

/// What `s.parse::<i32>().ok()` gives, as a mathematical integer.
pub open spec fn spec_parse_i32(s: Seq<char>) -> Option<int> {
    spec_parse_in(s, i32::MIN as int, i32::MAX as int)
}

/// What `s.parse::<i64>().ok()` gives, as a mathematical integer.
pub open spec fn spec_parse_i64(s: Seq<char>) -> Option<int> {
    spec_parse_in(s, i64::MIN as int, i64::MAX as int)
}

pub proof fn lemma_digits_value_nonneg(s: Seq<char>)
    requires
        all_digits(s),
    ensures
        digits_value(s) >= 0,
    decreases s.len(),
{
    if s.len() > 0 {
        assert(all_digits(s.drop_last()));
        lemma_digits_value_nonneg(s.drop_last());
        assert(is_digit(s[s.len() - 1]));
    }
}

pub proof fn lemma_digits_value_prefix(s: Seq<char>, k: int)
    requires
        all_digits(s),
        0 <= k <= s.len(),
    ensures
        digits_value(s.take(k)) <= digits_value(s),
    decreases s.len(),
{
    if k < s.len() {
        let t = s.drop_last();
        assert(all_digits(t));
        assert(t.take(k) =~= s.take(k));
        lemma_digits_value_prefix(t, k);
        lemma_digits_value_nonneg(t);
        assert(is_digit(s[s.len() - 1]));
    } else {
        assert(s.take(k) =~= s);
    }
}

/// The value of the digits `s[start..]`, where they are all digits, at least one, and
/// the value is at most `bound`.
fn parse_digits_bounded(s: &[char], start: usize, bound: u64) -> (r: Option<u64>)
    requires
        start <= s@.len(),
    ensures
        match r {
            Some(v) => {
                let d = s@.skip(start as int);
                &&& d.len() > 0
                &&& all_digits(d)
                &&& v == digits_value(d)
                &&& v <= bound
            },
            None => {
                let d = s@.skip(start as int);
                !(d.len() > 0 && all_digits(d) && digits_value(d) <= bound)
            },
        },
{
    let n = s.len();
    if start >= n {
        return None;
    }
    let ghost d = s@.skip(start as int);
    let mut acc: u64 = 0;
    let mut i: usize = start;
    assert(d.take(0) =~= Seq::<char>::empty());
    while i < n
        invariant
            start <= i <= n == s@.len(),
            d == s@.skip(start as int),
            all_digits(d.take(i - start)),
            acc == digits_value(d.take(i - start)),
            acc <= bound,
        decreases n - i,
    {
        let c = s[i];
        if !('0' <= c && c <= '9') {
            assert(d[i - start] == c);
            return None;
        }
        let dv = (c as u32 - '0' as u32) as u64;
        assert(d.take(i - start + 1).drop_last() =~= d.take(i - start));
        assert(d.take(i - start + 1).last() == c);
        if (acc as u128) * 10 + (dv as u128) > bound as u128 {
            proof {
                let k = (i - start + 1) as int;
                assert(all_digits(d.take(k)));
                if all_digits(d) {
                    assert(d.take(k) =~= d.take(k));
                    lemma_digits_value_prefix(d, k);
                }
            }
            return None;
        }
        acc = acc * 10 + dv;
        i = i + 1;
        assert(all_digits(d.take(i - start)));
    }
    assert(d.take(n - start) =~= d);
    Some(acc)
}

/// Parses `s` as a signed integer in `-neg_bound..=pos_bound`, as `FromStr` does.
fn parse_signed(s: &[char], neg_bound: u64, pos_bound: u64) -> (r: Option<(bool, u64)>)
    ensures
        match r {
            Some((neg, m)) => {
                &&& spec_parse_int(s@) == Some(if neg { -(m as int) } else { m as int })
                &&& (neg ==> m <= neg_bound)
                &&& (!neg ==> m <= pos_bound)
            },
            None => match spec_parse_int(s@) {
                Some(v) => v < -(neg_bound as int) || v > pos_bound as int,
                None => true,
            },
        },
{
    if s.len() == 0 {
        return None;
    }
    let c = s[0];
    if c == '-' || c == '+' {
        let neg = c == '-';
        let bound = if neg { neg_bound } else { pos_bound };
        assert(s@.skip(1) =~= s@.drop_first());
        match parse_digits_bounded(s, 1, bound) {
            Some(m) => Some((neg, m)),
            None => None,
        }
    } else {
        assert(s@.skip(0) =~= s@);
        match parse_digits_bounded(s, 0, pos_bound) {
            Some(m) => Some((false, m)),
            None => None,
        }
    }
}

/// `s.parse::<i32>().ok()`.
pub fn parse_i32(s: &[char]) -> (r: Option<i32>)
    ensures
        match r {
            Some(v) => spec_parse_i32(s@) == Some(v as int),
            None => spec_parse_i32(s@) is None,
        },
{
    match parse_signed(s, 0x8000_0000u64, 0x7fff_ffffu64) {
        Some((neg, m)) => {
            if neg {
                Some((0i64 - m as i64) as i32)
            } else {
                Some(m as i32)
            }
        },
        None => None,
    }
}

/// `s.parse::<i64>().ok()`.
pub fn parse_i64(s: &[char]) -> (r: Option<i64>)
    ensures
        match r {
            Some(v) => spec_parse_i64(s@) == Some(v as int),
            None => spec_parse_i64(s@) is None,
        },
{
    match parse_signed(s, 0x8000_0000_0000_0000u64, 0x7fff_ffff_ffff_ffffu64) {
        Some((neg, m)) => {
            if neg {
                if m == 0x8000_0000_0000_0000u64 {
                    Some(i64::MIN)
                } else {
                    Some(0i64 - m as i64)
                }
            } else {
                Some(m as i64)
            }
        },
        None => None,
    }
}


// ---------------------------------------------------------------------------
// ASCII case
// ---------------------------------------------------------------------------

/// The code of a character after ASCII lower-casing.
pub open spec fn ascii_lower(c: char) -> int {
    if 'A' <= c && c <= 'Z' {
        c as int + 32
    } else {
        c as int
    }
}

/// Two texts are equal when ASCII letters are taken without their case.
pub open spec fn spec_eq_ignore_ascii_case(a: Seq<char>, b: Seq<char>) -> bool {
    &&& a.len() == b.len()
    &&& forall|i: int| 0 <= i < a.len() ==> ascii_lower(#[trigger] a[i]) == ascii_lower(b[i])
}

/// The code of a character after ASCII lower-casing.
fn lower_code(c: char) -> (r: u32)
    ensures
        r as int == ascii_lower(c),
{
    let code: u32 = c as u32;
    if 'A' <= c && c <= 'Z' {
        code + 32
    } else {
        code
    }
}

/// Whether two texts are equal when ASCII letters are taken without their case.
pub fn eq_ignore_ascii_case(a: &str, b: &str) -> (r: bool)
    ensures
        r == spec_eq_ignore_ascii_case(a@, b@),
{
    let x = chars_of(a);
    let y = chars_of(b);
    if x.len() != y.len() {
        return false;
    }
    let mut i: usize = 0;
    while i < x.len()
        invariant
            x@ == a@,
            y@ == b@,
            x@.len() == y@.len(),
            i <= x@.len(),
            forall|j: int| 0 <= j < i ==> ascii_lower(#[trigger] x@[j]) == ascii_lower(y@[j]),
        decreases x@.len() - i,
    {
        if lower_code(x[i]) != lower_code(y[i]) {
            return false;
        }
        i = i + 1;
    }
    true
}

// ---------------------------------------------------------------------------
// Lists of strings
// ---------------------------------------------------------------------------

/// The texts of a list of strings.
pub open spec fn strings_view(v: Seq<String>) -> Seq<Seq<char>> {
    v.map_values(|s: String| s@)
}

/// Appends a copy of each string of `v` to `out`.
pub fn extend_strings(out: &mut Vec<String>, v: &Vec<String>)
    ensures
        strings_view(final(out)@) == strings_view(old(out)@) + strings_view(v@),
{
    let ghost start = strings_view(out@);
    let mut i: usize = 0;
    while i < v.len()
        invariant
            i <= v@.len(),
            strings_view(out@) == start + strings_view(v@).take(i as int),
        decreases v@.len() - i,
    {
        let ghost before = out@;
        out.push(copy_str(v[i].as_str()));
        assert(strings_view(out@) =~= strings_view(before).push(v@[i as int]@));
        assert(strings_view(v@).take(i + 1) =~= strings_view(v@).take(i as int).push(
            v@[i as int]@,
        ));
        i = i + 1;
    }
    assert(strings_view(v@).take(i as int) =~= strings_view(v@));
}

/// Appends each character list of `v`, as a string, to `out`.
pub fn extend_from_chars(out: &mut Vec<String>, v: &Vec<Vec<char>>)
    ensures
        strings_view(final(out)@) == strings_view(old(out)@) + seqs_of(v@),
{
    let ghost start = strings_view(out@);
    let mut i: usize = 0;
    while i < v.len()
        invariant
            i <= v@.len(),
            strings_view(out@) == start + seqs_of(v@).take(i as int),
        decreases v@.len() - i,
    {
        let ghost before = out@;
        out.push(string_of(v[i].as_slice()));
        assert(strings_view(out@) =~= strings_view(before).push(v@[i as int]@));
        assert(seqs_of(v@).take(i + 1) =~= seqs_of(v@).take(i as int).push(v@[i as int]@));
        i = i + 1;
    }
    assert(seqs_of(v@).take(i as int) =~= seqs_of(v@));
}

/// Appends a copy of `s` to `out`.
pub fn push_string(out: &mut Vec<String>, s: &str)
    ensures
        strings_view(final(out)@) == strings_view(old(out)@).push(s@),
{
    let ghost before = out@;
    out.push(copy_str(s));
    assert(strings_view(out@) =~= strings_view(before).push(s@));
}

/// Appends `s` to `out`.
pub fn push_owned(out: &mut Vec<String>, s: String)
    ensures
        strings_view(final(out)@) == strings_view(old(out)@).push(s@),
{
    let ghost before = out@;
    out.push(s);
    assert(strings_view(out@) =~= strings_view(before).push(s@));
}

// ---------------------------------------------------------------------------
// Decimal text of numbers
// ---------------------------------------------------------------------------

/// The character of a decimal digit.
pub open spec fn digit_char(d: int) -> char {
    if d == 0 {
        '0'
    } else if d == 1 {
        '1'
    } else if d == 2 {
        '2'
    } else if d == 3 {
        '3'
    } else if d == 4 {
        '4'
    } else if d == 5 {
        '5'
    } else if d == 6 {
        '6'
    } else if d == 7 {
        '7'
    } else if d == 8 {
        '8'
    } else {
        '9'
    }
}

/// The decimal text of a number, without leading zeros.
pub open spec fn spec_decimal(n: nat) -> Seq<char>
    decreases n,
{
    if n < 10 {
        seq![digit_char(n as int)]
    } else {
        spec_decimal(n / 10).push(digit_char((n % 10) as int))
    }
}

/// The character of a decimal digit.
fn digit_of(d: u64) -> (r: char)
    requires
        d < 10,
    ensures
        r == digit_char(d as int),
{
    if d == 0 {
        '0'
    } else if d == 1 {
        '1'
    } else if d == 2 {
        '2'
    } else if d == 3 {
        '3'
    } else if d == 4 {
        '4'
    } else if d == 5 {
        '5'
    } else if d == 6 {
        '6'
    } else if d == 7 {
        '7'
    } else if d == 8 {
        '8'
    } else {
        '9'
    }
}

/// The decimal text of a number (what `to_string` gives).
pub fn decimal(n: u64) -> (r: String)
    ensures
        r@ == spec_decimal(n as nat),
    decreases n,
{
    if n < 10 {
        let mut r = String::new();
        push_char(&mut r, digit_of(n));
        r
    } else {
        let mut r = decimal(n / 10);
        push_char(&mut r, digit_of(n % 10));
        r
    }
}

// ---------------------------------------------------------------------------
// Suffixes and last occurrences
// ---------------------------------------------------------------------------

/// `suffix` ends `s`.
pub open spec fn spec_ends_with(s: Seq<char>, suffix: Seq<char>) -> bool {
    suffix.len() <= s.len() && s.skip(s.len() - suffix.len()) == suffix
}

/// Whether `suffix` ends `s`.
pub fn ends_with(s: &str, suffix: &str) -> (r: bool)
    ensures
        r == spec_ends_with(s@, suffix@),
{
    let a = chars_of(s);
    let p = chars_of(suffix);
    if p.len() > a.len() {
        return false;
    }
    let n = a.len();
    let off = n - p.len();
    let mut i: usize = 0;
    while i < p.len()
        invariant
            n == a@.len(),
            a@ == s@,
            p@ == suffix@,
            off == a@.len() - p@.len(),
            p@.len() <= a@.len(),
            i <= p@.len(),
            forall|j: int| 0 <= j < i ==> a@[off + j] == p@[j],
        decreases p@.len() - i,
    {
        assert(off + i < a@.len());
        if a[off + i] != p[i] {
            assert(s@.skip(off as int)[i as int] != suffix@[i as int]);
            return false;
        }
        i = i + 1;
    }
    assert(s@.skip(off as int) =~= suffix@);
    true
}

/// Whether `p` occurs in `s`.
pub fn contains_str(s: &str, p: &str) -> (r: bool)
    ensures
        r == spec_find(s@, p@) is Some,
{
    let a = chars_of(s);
    let b = chars_of(p);
    find_chars(a.as_slice(), b.as_slice()).is_some()
}

/// Where `c` last occurs in `s`.
pub open spec fn spec_rfind_char(s: Seq<char>, c: char) -> Option<int>
    decreases s.len(),
{
    if s.len() == 0 {
        None
    } else if s.last() == c {
        Some(s.len() - 1)
    } else {
        spec_rfind_char(s.drop_last(), c)
    }
}

/// Where `c` last occurs in `s`.
pub fn rfind_char(s: &[char], c: char) -> (r: Option<usize>)
    ensures
        match r {
            Some(k) => spec_rfind_char(s@, c) == Some(k as int) && k < s@.len(),
            None => spec_rfind_char(s@, c) is None,
        },
{
    let mut i: usize = s.len();
    assert(s@.take(i as int) =~= s@);
    while i > 0
        invariant
            i <= s@.len(),
            spec_rfind_char(s@, c) == spec_rfind_char(s@.take(i as int), c),
        decreases i,
    {
        assert(s@.take(i as int).drop_last() =~= s@.take(i - 1));
        if s[i - 1] == c {
            return Some(i - 1);
        }
        i = i - 1;
    }
    None
}

// ---------------------------------------------------------------------------
// Hexadecimal and Base64 text
// ---------------------------------------------------------------------------

/// The lower-case hexadecimal digit of a value below 16.
pub open spec fn hex_char(d: int) -> char {
    if d < 10 {
        digit_char(d)
    } else if d == 10 {
        'a'
    } else if d == 11 {
        'b'
    } else if d == 12 {
        'c'
    } else if d == 13 {
        'd'
    } else if d == 14 {
        'e'
    } else {
        'f'
    }
}

/// The last `n` hexadecimal digits of `x`, most significant first.
pub open spec fn hex_digits(x: nat, n: nat) -> Seq<char>
    decreases n,
{
    if n == 0 {
        Seq::empty()
    } else {
        hex_digits(x / 16, (n - 1) as nat).push(hex_char((x % 16) as int))
    }
}

/// The lower-case hexadecimal digit of a value below 16.
fn hex_of(d: u128) -> (r: char)
    requires
        d < 16,
    ensures
        r == hex_char(d as int),
{
    if d < 10 {
        digit_of(d as u64)
    } else if d == 10 {
        'a'
    } else if d == 11 {
        'b'
    } else if d == 12 {
        'c'
    } else if d == 13 {
        'd'
    } else if d == 14 {
        'e'
    } else {
        'f'
    }
}

/// The last `n` hexadecimal digits of `x`.
fn hex_chars(x: u128, n: u32) -> (r: Vec<char>)
    ensures
        r@ == hex_digits(x as nat, n as nat),
    decreases n,
{
    if n == 0 {
        Vec::new()
    } else {
        let mut r = hex_chars(x / 16, n - 1);
        r.push(hex_of(x % 16));
        r
    }
}

/// The hyphenated text of a UUID: 32 lower-case hexadecimal digits in groups of 8, 4,
/// 4, 4 and 12.
pub open spec fn spec_uuid_text(x: u128) -> Seq<char> {
    let h = hex_digits(x as nat, 32);
    h.subrange(0, 8) + seq!['-'] + h.subrange(8, 12) + seq!['-'] + h.subrange(12, 16) + seq!['-']
        + h.subrange(16, 20) + seq!['-'] + h.subrange(20, 32)
}

/// The length of a run of hexadecimal digits.
proof fn lemma_hex_len(x: nat, n: nat)
    ensures
        hex_digits(x, n).len() == n,
    decreases n,
{
    if n > 0 {
        lemma_hex_len(x / 16, (n - 1) as nat);
    }
}

/// Appends `h[a..b]` to `r`.
fn push_range(r: &mut String, h: &Vec<char>, a: usize, b: usize)
    requires
        a <= b <= h@.len(),
    ensures
        final(r)@ == old(r)@ + h@.subrange(a as int, b as int),
{
    let mut i: usize = a;
    while i < b
        invariant
            a <= i <= b <= h@.len(),
            r@ == old(r)@ + h@.subrange(a as int, i as int),
        decreases b - i,
    {
        push_char(r, h[i]);
        assert(h@.subrange(a as int, i + 1) =~= h@.subrange(a as int, i as int).push(h@[i as int]));
        i = i + 1;
    }
}

/// The hyphenated text of a UUID (what its `Display` writes).
pub fn uuid_text(x: u128) -> (r: String)
    ensures
        r@ == spec_uuid_text(x),
{
    let h = hex_chars(x, 32);
    proof {
        lemma_hex_len(x as nat, 32);
    }
    let mut r = String::new();
    push_range(&mut r, &h, 0, 8);
    push_char(&mut r, '-');
    push_range(&mut r, &h, 8, 12);
    push_char(&mut r, '-');
    push_range(&mut r, &h, 12, 16);
    push_char(&mut r, '-');
    push_range(&mut r, &h, 16, 20);
    push_char(&mut r, '-');
    push_range(&mut r, &h, 20, 32);
    assert(r@ =~= spec_uuid_text(x));
    r
}

/// The Base64 character of a value below 64 (standard alphabet).
pub open spec fn b64_char(v: int) -> char {
    (if v < 26 {
        65 + v
    } else if v < 52 {
        97 + v - 26
    } else if v < 62 {
        48 + v - 52
    } else if v == 62 {
        43
    } else {
        47
    }) as char
}

/// The standard Base64 text of bytes, with padding.
pub open spec fn spec_base64(b: Seq<u8>) -> Seq<char>
    decreases b.len(),
{
    if b.len() == 0 {
        Seq::empty()
    } else if b.len() == 1 {
        let b0 = b[0] as int;
        seq![b64_char(b0 / 4), b64_char((b0 % 4) * 16), '=', '=']
    } else if b.len() == 2 {
        let b0 = b[0] as int;
        let b1 = b[1] as int;
        seq![b64_char(b0 / 4), b64_char((b0 % 4) * 16 + b1 / 16), b64_char((b1 % 16) * 4), '=']
    } else {
        let b0 = b[0] as int;
        let b1 = b[1] as int;
        let b2 = b[2] as int;
        seq![
            b64_char(b0 / 4),
            b64_char((b0 % 4) * 16 + b1 / 16),
            b64_char((b1 % 16) * 4 + b2 / 64),
            b64_char(b2 % 64),
        ] + spec_base64(b.skip(3))
    }
}

/// The Base64 character of a value below 64.
fn b64_of(v: u32) -> (r: char)
    requires
        v < 64,
    ensures
        r == b64_char(v as int),
{
    let code: u8 = if v < 26 {
        (65 + v) as u8
    } else if v < 52 {
        (97 + v - 26) as u8
    } else if v < 62 {
        (48 + v - 52) as u8
    } else if v == 62 {
        43
    } else {
        47
    };
    code as char
}

/// The standard Base64 text of bytes, with padding.
pub fn base64(b: &[u8]) -> (r: String)
    ensures
        r@ == spec_base64(b@),
{
    let mut r = String::new();
    let mut i: usize = 0;
    let n = b.len();
    assert(b@.skip(0) =~= b@);
    while n - i >= 3
        invariant
            n == b@.len(),
            i <= n,
            i % 3 == 0,
            r@ + spec_base64(b@.skip(i as int)) == spec_base64(b@),
        decreases n - i,
    {
        let b0 = b[i] as u32;
        let b1 = b[i + 1] as u32;
        let b2 = b[i + 2] as u32;
        let ghost rest = b@.skip(i as int);
        let ghost before = r@;
        assert(rest.skip(3) =~= b@.skip(i + 3));
        assert(rest[0] == b[i as int] && rest[1] == b[i + 1] && rest[2] == b[i + 2]);
        push_char(&mut r, b64_of(b0 / 4));
        push_char(&mut r, b64_of((b0 % 4) * 16 + b1 / 16));
        push_char(&mut r, b64_of((b1 % 16) * 4 + b2 / 64));
        push_char(&mut r, b64_of(b2 % 64));
        assert(r@ + spec_base64(b@.skip(i + 3)) =~= before + spec_base64(rest));
        i = i + 3;
    }
    let ghost rest = b@.skip(i as int);
    if n - i == 1 {
        let b0 = b[i] as u32;
        push_char(&mut r, b64_of(b0 / 4));
        push_char(&mut r, b64_of((b0 % 4) * 16));
        push_char(&mut r, '=');
        push_char(&mut r, '=');
    } else if n - i == 2 {
        let b0 = b[i] as u32;
        let b1 = b[i + 1] as u32;
        push_char(&mut r, b64_of(b0 / 4));
        push_char(&mut r, b64_of((b0 % 4) * 16 + b1 / 16));
        push_char(&mut r, b64_of((b1 % 16) * 4));
        push_char(&mut r, '=');
    }
    assert(r@ =~= spec_base64(b@));
    r
}

// ---------------------------------------------------------------------------
// Replacing text
// ---------------------------------------------------------------------------

/// `s` with each occurrence of `from`, taken from the left and without overlap,
/// replaced by `to` (what `str::replace` gives for a non-empty `from`).
pub open spec fn spec_replace(s: Seq<char>, from: Seq<char>, to: Seq<char>) -> Seq<char>
    decreases s.len(),
{
    if from.len() == 0 || s.len() < from.len() {
        s
    } else if s.take(from.len() as int) == from {
        to + spec_replace(s.skip(from.len() as int), from, to)
    } else {
        seq![s[0]] + spec_replace(s.skip(1), from, to)
    }
}

/// `s` with each occurrence of the non-empty `from` replaced by `to`.
pub fn replace_str(s: &str, from: &str, to: &str) -> (r: String)
    requires
        from@.len() > 0,
    ensures
        r@ == spec_replace(s@, from@, to@),
{
    let a = chars_of(s);
    let p = chars_of(from);
    let n = a.len();
    let m = p.len();
    let mut r = String::new();
    let mut i: usize = 0;
    assert(a@.skip(0) =~= a@);
    while i < n
        invariant
            a@ == s@,
            p@ == from@,
            n == a@.len(),
            m == p@.len(),
            m > 0,
            i <= n,
            r@ + spec_replace(a@.skip(i as int), p@, to@) == spec_replace(s@, from@, to@),
        decreases n - i,
    {
        let ghost rest = a@.skip(i as int);
        let ghost before = r@;
        if m <= n - i && match_at(a.as_slice(), p.as_slice(), i) {
            assert(rest.take(m as int) =~= a@.subrange(i as int, i + m));
            assert(rest.skip(m as int) =~= a@.skip(i + m));
            push_str(&mut r, to);
            i = i + m;
        } else {
            if m <= n - i {
                assert(rest.take(m as int) =~= a@.subrange(i as int, i + m));
            }
            assert(rest.skip(1) =~= a@.skip(i + 1));
            assert(rest[0] == a@[i as int]);
            assert(rest =~= seq![a@[i as int]] + rest.skip(1));
            push_char(&mut r, a[i]);
            proof {
                if rest.len() < m {
                    assert(spec_replace(rest.skip(1), p@, to@) == rest.skip(1));
                }
            }
            i = i + 1;
        }
    }
    assert(a@.skip(i as int) =~= Seq::<char>::empty());
    r
}

/// `s` with the replacements of `pairs` made in turn: each key by its value.
pub open spec fn replace_each(s: Seq<char>, pairs: Seq<(Seq<char>, Seq<char>)>) -> Seq<char>
    decreases pairs.len(),
{
    if pairs.len() == 0 {
        s
    } else {
        let prev = replace_each(s, pairs.drop_last());
        spec_replace(prev, pairs.last().0, pairs.last().1)
    }
}

/// Every key of the replacements is non-empty.
pub open spec fn keys_nonempty(pairs: Seq<(Seq<char>, Seq<char>)>) -> bool {
    forall|i: int| 0 <= i < pairs.len() ==> (#[trigger] pairs[i]).0.len() > 0
}

/// The texts of a list of replacements.
pub open spec fn replacements_view(pairs: Seq<(String, String)>) -> Seq<(Seq<char>, Seq<char>)> {
    pairs.map_values(|p: (String, String)| (p.0@, p.1@))
}

/// `s` with the replacements of `pairs` made in turn.
pub fn replace_all(s: &str, pairs: &Vec<(String, String)>) -> (r: String)
    requires
        keys_nonempty(replacements_view(pairs@)),
    ensures
        r@ == replace_each(s@, replacements_view(pairs@)),
{
    let mut r = copy_str(s);
    let mut i: usize = 0;
    assert(replacements_view(pairs@).take(0) =~= Seq::<(Seq<char>, Seq<char>)>::empty());
    while i < pairs.len()
        invariant
            i <= pairs@.len(),
            keys_nonempty(replacements_view(pairs@)),
            r@ == replace_each(s@, replacements_view(pairs@).take(i as int)),
        decreases pairs@.len() - i,
    {
        assert(replacements_view(pairs@).take(i + 1).drop_last() =~= replacements_view(pairs@).take(
            i as int,
        ));
        assert(replacements_view(pairs@)[i as int].0.len() > 0);
        r = replace_str(r.as_str(), pairs[i].0.as_str(), pairs[i].1.as_str());
        i = i + 1;
    }
    assert(replacements_view(pairs@).take(i as int) =~= replacements_view(pairs@));
    r
}

/// What `str::to_lowercase` gives for a text: its lower-case form, as Unicode
/// defines it.
pub uninterp spec fn lowercase(s: Seq<char>) -> Seq<char>;

/// `str::to_lowercase`: the result is `lowercase` of the text.
#[verifier::external_body]
pub(crate) fn to_lower(s: &str) -> (r: String)
    ensures
        r@ == lowercase(s@),
{
    s.to_lowercase()
}

} // verus!

verus! {

/// `s` has no `$`.
pub open spec fn no_dollar(s: Seq<char>) -> bool {
    forall|i: int| 0 <= i < s.len() ==> s[i] != '$'
}

/// `s` has neither `$` nor `}`.
pub open spec fn inner_plain(s: Seq<char>) -> bool
    decreases s.len(),
{
    if s.len() == 0 {
        true
    } else {
        s[0] != '$' && s[0] != '}' && inner_plain(s.skip(1))
    }
}

/// A placeholder key: `$`, then text with neither `$` nor `}`, then `}`.
pub open spec fn key_shaped(k: Seq<char>) -> bool {
    &&& k.len() >= 2
    &&& k[0] == '$'
    &&& k[k.len() - 1] == '}'
    &&& inner_plain(k.subrange(1, k.len() - 1))
}

/// Every key of the replacements is a placeholder key.
pub open spec fn keys_shaped(pairs: Seq<(Seq<char>, Seq<char>)>) -> bool {
    forall|i: int| 0 <= i < pairs.len() ==> key_shaped(#[trigger] pairs[i].0)
}

/// No value of the replacements has a `$`.
pub open spec fn values_plain(pairs: Seq<(Seq<char>, Seq<char>)>) -> bool {
    forall|i: int| 0 <= i < pairs.len() ==> no_dollar(#[trigger] pairs[i].1)
}

/// Pair `i` is the first whose key is `k`.
pub open spec fn first_key(pairs: Seq<(Seq<char>, Seq<char>)>, k: Seq<char>, i: int) -> bool {
    &&& 0 <= i < pairs.len()
    &&& pairs[i].0 == k
    &&& forall|j: int| 0 <= j < i ==> (#[trigger] pairs[j]).0 != k
}

proof fn lemma_inner_plain(s: Seq<char>)
    requires
        inner_plain(s),
    ensures
        forall|i: int| 0 <= i < s.len() ==> s[i] != '$' && s[i] != '}',
    decreases s.len(),
{
    if s.len() > 0 {
        lemma_inner_plain(s.skip(1));
        assert forall|i: int| 0 <= i < s.len() implies s[i] != '$' && s[i] != '}' by {
            if i > 0 {
                assert(s[i] == s.skip(1)[i - 1]);
            }
        }
    }
}

/// A placeholder key has its `$` first and its `}` last, and no other.
proof fn lemma_key_chars(k: Seq<char>)
    requires
        key_shaped(k),
    ensures
        forall|i: int| 1 <= i < k.len() ==> k[i] != '$',
        forall|i: int| 0 <= i < k.len() - 1 ==> k[i] != '}',
{
    let inner = k.subrange(1, k.len() - 1);
    lemma_inner_plain(inner);
    assert forall|i: int| 1 <= i < k.len() implies k[i] != '$' by {
        if i < k.len() - 1 {
            assert(k[i] == inner[i - 1]);
        }
    }
    assert forall|i: int| 0 <= i < k.len() - 1 implies k[i] != '}' by {
        if i > 0 {
            assert(k[i] == inner[i - 1]);
        }
    }
}

/// Replacing a key that starts with `$` leaves a text without `$` as it is.
proof fn lemma_replace_plain(s: Seq<char>, from: Seq<char>, to: Seq<char>)
    requires
        no_dollar(s),
        from.len() > 0,
        from[0] == '$',
    ensures
        spec_replace(s, from, to) == s,
    decreases s.len(),
{
    if s.len() >= from.len() {
        assert(s.take(from.len() as int)[0] == s[0]);
        lemma_replace_plain(s.skip(1), from, to);
        assert(seq![s[0]] + s.skip(1) =~= s);
    }
}

/// Replacing a key that starts with `$` in `p + key + q`, where `p` and `q` have no `$`,
/// puts the value in its place.
proof fn lemma_replace_one(p: Seq<char>, from: Seq<char>, to: Seq<char>, q: Seq<char>)
    requires
        no_dollar(p),
        no_dollar(q),
        from.len() > 0,
        from[0] == '$',
    ensures
        spec_replace(p + from + q, from, to) == p + to + q,
    decreases p.len(),
{
    let s = p + from + q;
    if p.len() == 0 {
        assert(s =~= from + q);
        assert(s.take(from.len() as int) =~= from);
        assert(s.skip(from.len() as int) =~= q);
        lemma_replace_plain(q, from, to);
        assert(p + to + q =~= to + q);
    } else {
        assert(s.take(from.len() as int)[0] == p[0]);
        assert(s.skip(1) =~= p.skip(1) + from + q);
        lemma_replace_one(p.skip(1), from, to, q);
        assert(seq![s[0]] + (p.skip(1) + to + q) =~= p + to + q);
    }
}

/// Replacing another placeholder key leaves `p + key + q` as it is, where `p` and `q`
/// have no `$`.
proof fn lemma_replace_other(p: Seq<char>, k: Seq<char>, q: Seq<char>, kj: Seq<char>, vj: Seq<char>)
    requires
        no_dollar(p),
        no_dollar(q),
        key_shaped(k),
        key_shaped(kj),
        k != kj,
    ensures
        spec_replace(p + k + q, kj, vj) == p + k + q,
    decreases p.len(),
{
    let s = p + k + q;
    lemma_key_chars(k);
    lemma_key_chars(kj);
    if p.len() == 0 {
        assert(s =~= k + q);
        if s.len() >= kj.len() {
            assert(s.take(kj.len() as int) != kj) by {
                if s.take(kj.len() as int) == kj {
                    if kj.len() <= k.len() {
                        assert(kj[kj.len() - 1] == k[kj.len() - 1]);
                        assert(kj.len() == k.len());
                        assert(kj =~= k);
                    } else {
                        assert(kj[k.len() - 1] == k[k.len() - 1]);
                    }
                }
            }
            let rest = s.skip(1);
            assert(no_dollar(rest)) by {
                assert forall|i: int| 0 <= i < rest.len() implies rest[i] != '$' by {
                    if i + 1 < k.len() {
                        assert(rest[i] == k[i + 1]);
                    } else {
                        assert(rest[i] == q[i + 1 - k.len()]);
                    }
                }
            }
            lemma_replace_plain(rest, kj, vj);
            assert(seq![s[0]] + rest =~= s);
        }
    } else if s.len() >= kj.len() {
        assert(s.take(kj.len() as int)[0] == p[0]);
        assert(s.skip(1) =~= p.skip(1) + k + q);
        lemma_replace_other(p.skip(1), k, q, kj, vj);
        assert(seq![s[0]] + (p.skip(1) + k + q) =~= s);
    }
}

/// The first `m` replacements of `p + k + q`: the text as it is until the first pair
/// with key `k`, that pair's value in place of the key from then on.
proof fn lemma_replace_each_upto(
    pairs: Seq<(Seq<char>, Seq<char>)>,
    m: int,
    i: int,
    p: Seq<char>,
    q: Seq<char>,
)
    requires
        keys_shaped(pairs),
        values_plain(pairs),
        first_key(pairs, pairs[i].0, i),
        0 <= m <= pairs.len(),
        no_dollar(p),
        no_dollar(q),
    ensures
        replace_each(p + pairs[i].0 + q, pairs.take(m)) == if m <= i {
            p + pairs[i].0 + q
        } else {
            p + pairs[i].1 + q
        },
    decreases m,
{
    let k = pairs[i].0;
    let s = p + k + q;
    if m == 0 {
        assert(pairs.take(0) =~= Seq::<(Seq<char>, Seq<char>)>::empty());
    } else {
        lemma_replace_each_upto(pairs, m - 1, i, p, q);
        assert(pairs.take(m).drop_last() =~= pairs.take(m - 1));
        assert(pairs.take(m).last() == pairs[m - 1]);
        let (kj, vj) = pairs[m - 1];
        assert(key_shaped(pairs[m - 1].0));
        assert(key_shaped(k));
        if m - 1 < i {
            assert(pairs[m - 1].0 != k);
            lemma_replace_other(p, k, q, kj, vj);
        } else if m - 1 == i {
            lemma_replace_one(p, k, pairs[i].1, q);
        } else {
            let t = p + pairs[i].1 + q;
            assert(no_dollar(pairs[i].1));
            assert(no_dollar(t)) by {
                assert forall|x: int| 0 <= x < t.len() implies t[x] != '$' by {
                    if x < p.len() {
                        assert(t[x] == p[x]);
                    } else if x < p.len() + pairs[i].1.len() {
                        assert(t[x] == pairs[i].1[x - p.len()]);
                    } else {
                        assert(t[x] == q[x - p.len() - pairs[i].1.len()]);
                    }
                }
            }
            lemma_replace_plain(t, kj, vj);
        }
    }
}

/// An argument holding one placeholder key between text without `$` comes out with the
/// value of the first pair of that key in its place, where every key is a placeholder
/// key and no value has a `$`; an argument without `$` comes out as it is.
pub proof fn law_placeholder_replaced(
    pairs: Seq<(Seq<char>, Seq<char>)>,
    i: int,
    p: Seq<char>,
    q: Seq<char>,
)
    requires
        keys_shaped(pairs),
        values_plain(pairs),
        first_key(pairs, pairs[i].0, i),
        no_dollar(p),
        no_dollar(q),
    ensures
        replace_each(p + pairs[i].0 + q, pairs) == p + pairs[i].1 + q,
        replace_each(p, pairs) == p,
{
    lemma_replace_each_upto(pairs, pairs.len() as int, i, p, q);
    assert(pairs.take(pairs.len() as int) =~= pairs);
    lemma_replace_each_plain(pairs, p);
}

/// Placeholder keys leave a text without `$` as it is.
proof fn lemma_replace_each_plain(pairs: Seq<(Seq<char>, Seq<char>)>, s: Seq<char>)
    requires
        keys_shaped(pairs),
        no_dollar(s),
    ensures
        replace_each(s, pairs) == s,
    decreases pairs.len(),
{
    if pairs.len() > 0 {
        lemma_replace_each_plain(pairs.drop_last(), s);
        assert(pairs.drop_last().len() < pairs.len());
        assert(key_shaped(pairs[pairs.len() - 1].0));
        lemma_replace_plain(s, pairs.last().0, pairs.last().1);
    }
}

} // verus!
