//! Play-time records: the text form of durations.
use vstd::prelude::*;

use crate::mojang::version_parse::sub_chars;
use crate::text::{
    chars_of, find_char, lemma_find_from_sound, matches_at, parse_i64, push_chars, push_str,
    seqs_of, spec_find, spec_parse_i64, spec_split, spec_trim, split_chars, string_of, trim_chars,
};

verus! {

/// `s` without trailing `c` characters.
pub open spec fn spec_trim_end_char(s: Seq<char>, c: char) -> Seq<char>
    decreases s.len(),
{
    if s.len() > 0 && s.last() == c {
        spec_trim_end_char(s.drop_last(), c)
    } else {
        s
    }
}

/// The number text `s` with the trailing zeros of its fraction removed, keeping at
/// least one fraction digit; texts without `.` stay as they are.
pub open spec fn spec_trim_trailing_zeros(s: Seq<char>) -> Seq<char> {
    match spec_find(s, seq!['.']) {
        Some(d) => {
            let int_part = s.take(d);
            let frac = spec_trim_end_char(s.skip(d + 1), '0');
            if frac.len() == 0 {
                int_part + seq!['.', '0']
            } else {
                int_part + seq!['.'] + frac
            }
        },
        None => s,
    }
}

/// Removes the trailing zeros of the fraction of a number text, keeping at least one
/// fraction digit (`"00:16:49.9106400"` gives `"00:16:49.91064"`, `"1.000"` gives
/// `"1.0"`).
pub fn trim_trailing_zeros(s: &str) -> (r: String)
    ensures
        r@ == spec_trim_trailing_zeros(s@),
{
    let v = chars_of(s);
    match find_char(v.as_slice(), '.') {
        Some(d) => {
            proof {
                lemma_find_from_sound(s@, seq!['.'], 0);
                assert(matches_at(s@, seq!['.'], d as int));
                assert(seq!['.'].len() == 1);
                assert(d + 1 <= v@.len());
                assert(v@.len() == v.len());
            }
            let frac = sub_chars(v.as_slice(), d + 1, v.len());
            let mut end: usize = frac.len();
            assert(frac@.take(end as int) =~= frac@);
            while end > 0 && frac[end - 1] == '0'
                invariant
                    end <= frac@.len(),
                    spec_trim_end_char(frac@, '0') == spec_trim_end_char(frac@.take(end as int), '0'),
                decreases end,
            {
                assert(frac@.take(end as int).drop_last() =~= frac@.take(end - 1));
                end = end - 1;
            }
            assert(spec_trim_end_char(frac@.take(end as int), '0') == frac@.take(end as int));
            let mut r = String::new();
            let ip = sub_chars(v.as_slice(), 0, d);
            push_chars(&mut r, ip.as_slice());
            if end == 0 {
                push_str(&mut r, ".0");
                proof {
                    reveal_strlit(".0");
                }
            } else {
                push_str(&mut r, ".");
                proof {
                    reveal_strlit(".");
                }
                let t = sub_chars(frac.as_slice(), 0, end);
                push_chars(&mut r, t.as_slice());
            }
            assert(frac@ =~= s@.skip(d + 1));
            assert(ip@ =~= s@.take(d as int));
            assert(r@ =~= spec_trim_trailing_zeros(s@));
            r
        },
        None => {
            let mut r = String::new();
            push_chars(&mut r, v.as_slice());
            assert(r@ =~= s@);
            r
        },
    }
}

// ---------------------------------------------------------------------------
// Durations read from text
// ---------------------------------------------------------------------------

/// The longest duration, in nanoseconds: `i64::MAX` milliseconds (the shortest is its
/// negation).
pub open spec fn max_duration_nanos() -> int {
    9223372036854775807int * 1000000int
}

/// The most seconds a duration can be made of.
pub open spec fn max_duration_secs() -> int {
    9223372036854775807int / 1000int
}

/// A duration, in nanoseconds.
#[derive(Debug, Clone, Copy, PartialEq, Eq, Structural)]
pub struct GameDuration {
    pub nanos: i128,
}

/// Why a duration text is refused, with the part of the text (or the number) at fault.
#[derive(Debug)]
pub enum DurationError {
    /// The text is in no known form.
    Unsupported(String),
    /// The time has not three parts.
    Shape(String),
    Hours(String),
    Minutes(String),
    MinutesRange(i64),
    Seconds(String),
    SecondsRange(i64),
    Fraction(String),
}

/// What is known of a duration text once read: its value in nanoseconds, why it is
/// refused (by the variant of `DurationError`, 0 to 7, and the text or number at fault),
/// or that reading it fails outright.
pub enum DurationOutcome {
    Value(int),
    Refused(int, Seq<char>, int),
    Fails,
}

/// The number of UTF-8 bytes of a character.
pub open spec fn utf8_width(c: char) -> int {
    if (c as int) < 0x80 {
        1
    } else if (c as int) < 0x800 {
        2
    } else if (c as int) < 0x10000 {
        3
    } else {
        4
    }
}

/// The number of UTF-8 bytes of a text.
pub open spec fn byte_len(s: Seq<char>) -> int
    decreases s.len(),
{
    if s.len() == 0 {
        0
    } else {
        byte_len(s.drop_last()) + utf8_width(s.last())
    }
}

/// A fraction padded on the right with zeros to nine characters.
pub open spec fn padded_fraction(frac: Seq<char>) -> Seq<char> {
    if frac.len() >= 9 {
        frac
    } else {
        frac + Seq::new((9 - frac.len()) as nat, |i: int| '0')
    }
}

/// The first nine bytes of the padded fraction, where they end on a character: the
/// text, or `None` where the ninth byte is inside a character.
pub open spec fn nine_bytes(p: Seq<char>) -> Option<Seq<char>> {
    if byte_len(p) <= 9 {
        Some(p)
    } else if exists|k: int| 0 <= k <= p.len() && byte_len(#[trigger] p.take(k)) == 9 {
        Some(p.take(choose|k: int| 0 <= k <= p.len() && byte_len(#[trigger] p.take(k)) == 9))
    } else {
        None
    }
}

/// A duration of hours, minutes, seconds and nanoseconds: out of range where the hours
/// are, or where a partial sum is.
pub open spec fn sum_duration(h: int, m: int, sec: int, n: int) -> DurationOutcome {
    let hs = h * 3600;
    if hs > max_duration_secs() || hs < -max_duration_secs() {
        DurationOutcome::Fails
    } else {
        let a = hs * 1000000000 + m * 60 * 1000000000;
        let b = a + sec * 1000000000;
        let c = b + n;
        if a > max_duration_nanos() || a < -max_duration_nanos() || b > max_duration_nanos() || b
            < -max_duration_nanos() || c > max_duration_nanos() || c < -max_duration_nanos() {
            DurationOutcome::Fails
        } else {
            DurationOutcome::Value(c)
        }
    }
}

/// What reading `HH:MM:SS[.fraction]` gives: hours any number, minutes and seconds
/// within 0..60, and a fraction of up to nine digits read as nanoseconds (padded on the
/// right with zeros, cut after nine bytes).
pub open spec fn spec_parse_time_part(t: Seq<char>) -> DurationOutcome {
    let parts = spec_split(t, ':');
    if parts.len() != 3 {
        DurationOutcome::Refused(1, t, 0)
    } else if spec_parse_i64(parts[0]) is None {
        DurationOutcome::Refused(2, parts[0], 0)
    } else if spec_parse_i64(parts[1]) is None {
        DurationOutcome::Refused(3, parts[1], 0)
    } else if spec_parse_i64(parts[1]).unwrap() < 0 || spec_parse_i64(parts[1]).unwrap() >= 60 {
        DurationOutcome::Refused(4, Seq::empty(), spec_parse_i64(parts[1]).unwrap())
    } else {
        let h = spec_parse_i64(parts[0]).unwrap();
        let m = spec_parse_i64(parts[1]).unwrap();
        let sp = parts[2];
        match spec_find(sp, seq!['.']) {
            Some(d) => {
                let secs = sp.take(d);
                let frac = sp.skip(d + 1);
                if spec_parse_i64(secs) is None {
                    DurationOutcome::Refused(5, secs, 0)
                } else if spec_parse_i64(secs).unwrap() < 0 || spec_parse_i64(secs).unwrap() >= 60 {
                    DurationOutcome::Refused(6, Seq::empty(), spec_parse_i64(secs).unwrap())
                } else {
                    match nine_bytes(padded_fraction(frac)) {
                        None => DurationOutcome::Fails,
                        Some(nine) => if spec_parse_i64(nine) is None {
                            DurationOutcome::Refused(7, frac, 0)
                        } else {
                            sum_duration(
                                h,
                                m,
                                spec_parse_i64(secs).unwrap(),
                                spec_parse_i64(nine).unwrap(),
                            )
                        },
                    }
                }
            },
            None => if spec_parse_i64(sp) is None {
                DurationOutcome::Refused(5, sp, 0)
            } else if spec_parse_i64(sp).unwrap() < 0 || spec_parse_i64(sp).unwrap() >= 60 {
                DurationOutcome::Refused(6, Seq::empty(), spec_parse_i64(sp).unwrap())
            } else {
                sum_duration(h, m, spec_parse_i64(sp).unwrap(), 0)
            },
        }
    }
}

/// What reading a duration text gives: `D.HH:MM:SS[.fraction]` with a number of days
/// before the first dot, else `HH:MM:SS[.fraction]`; the text is trimmed first.
pub open spec fn spec_parse_duration(text: Seq<char>) -> DurationOutcome {
    let t = spec_trim(text);
    let with_days = match spec_find(t, seq!['.']) {
        Some(d) => spec_parse_i64(t.take(d)) is Some && spec_find(t.skip(d + 1), seq![':']) is Some,
        None => false,
    };
    if with_days {
        let d = spec_find(t, seq!['.']).unwrap();
        let days = spec_parse_i64(t.take(d)).unwrap();
        match spec_parse_time_part(t.skip(d + 1)) {
            DurationOutcome::Value(v) => {
                let ds = days * 86400;
                if ds > max_duration_secs() || ds < -max_duration_secs() {
                    DurationOutcome::Fails
                } else if ds * 1000000000 + v > max_duration_nanos() || ds * 1000000000 + v
                    < -max_duration_nanos() {
                    DurationOutcome::Fails
                } else {
                    DurationOutcome::Value(ds * 1000000000 + v)
                }
            },
            other => other,
        }
    } else if spec_find(t, seq![':']) is Some {
        spec_parse_time_part(t)
    } else {
        DurationOutcome::Refused(0, t, 0)
    }
}

/// The error has the variant, the text and the number that `Refused` names.
pub open spec fn error_is(e: DurationError, kind: int, text: Seq<char>, n: int) -> bool {
    match e {
        DurationError::Unsupported(s) => kind == 0 && s@ == text,
        DurationError::Shape(s) => kind == 1 && s@ == text,
        DurationError::Hours(s) => kind == 2 && s@ == text,
        DurationError::Minutes(s) => kind == 3 && s@ == text,
        DurationError::MinutesRange(v) => kind == 4 && v == n,
        DurationError::Seconds(s) => kind == 5 && s@ == text,
        DurationError::SecondsRange(v) => kind == 6 && v == n,
        DurationError::Fraction(s) => kind == 7 && s@ == text,
    }
}

/// The result is what the outcome says.
pub open spec fn result_is(r: Result<GameDuration, DurationError>, o: DurationOutcome) -> bool {
    match o {
        DurationOutcome::Value(v) => r matches Ok(d) && d.nanos == v,
        DurationOutcome::Refused(kind, text, n) => r matches Err(e) && error_is(e, kind, text, n),
        DurationOutcome::Fails => false,
    }
}

/// The number of UTF-8 bytes of a character.
fn char_width(c: char) -> (r: u32)
    ensures
        r as int == utf8_width(c),
{
    let code: u32 = c as u32;
    if code < 0x80 {
        1
    } else if code < 0x800 {
        2
    } else if code < 0x10000 {
        3
    } else {
        4
    }
}

/// The first nine bytes of a text, where they end on a character (see `nine_bytes`).
fn cut_nine_bytes(p: &Vec<char>) -> (r: Option<Vec<char>>)
    ensures
        match r {
            Some(v) => nine_bytes(p@) == Some(v@),
            None => nine_bytes(p@) is None,
        },
{
    let mut bytes: u64 = 0;
    let mut k: usize = 0;
    while k < p.len() && bytes < 9
        invariant
            k <= p@.len(),
            bytes as int == byte_len(p@.take(k as int)),
            forall|j: int| 0 <= j < k ==> byte_len(#[trigger] p@.take(j)) < 9,
            bytes <= 12,
        decreases p@.len() - k,
    {
        assert(p@.take(k + 1).drop_last() =~= p@.take(k as int));
        bytes = bytes + char_width(p[k]) as u64;
        k = k + 1;
    }
    proof {
        lemma_byte_len_prefix_mono(p@, k as int);
    }
    if bytes < 9 {
        assert(p@.take(k as int) =~= p@);
        return Some(sub_chars(p.as_slice(), 0, k));
    }
    if bytes == 9 {
        if k == p.len() {
            assert(p@.take(k as int) =~= p@);
        }
        let v = sub_chars(p.as_slice(), 0, k);
        assert(v@ =~= p@.take(k as int));
        proof {
            assert(p@.take(p@.len() as int) =~= p@);
            if byte_len(p@) <= 9 {
                if k < p@.len() {
                    lemma_byte_len_prefix_mono(p@, p@.len() as int);
                    assert(byte_len(p@.take(k as int)) < byte_len(p@.take(p@.len() as int)));
                }
                assert(p@.take(k as int) =~= p@);
            } else {
                assert(byte_len(p@.take(k as int)) == 9);
                let c = choose|c: int| 0 <= c <= p@.len() && byte_len(#[trigger] p@.take(c)) == 9;
                lemma_byte_len_unique(p@, c, k as int);
            }
        }
        return Some(v);
    }
    proof {
        assert(byte_len(p@) >= byte_len(p@.take(k as int))) by {
            lemma_byte_len_take_le(p@, k as int);
        }
        if exists|c: int| 0 <= c <= p@.len() && byte_len(#[trigger] p@.take(c)) == 9 {
            let c = choose|c: int| 0 <= c <= p@.len() && byte_len(#[trigger] p@.take(c)) == 9;
            if c >= k {
                lemma_byte_len_take_le2(p@, k as int, c);
            }
        }
    }
    None
}

/// Byte lengths of longer prefixes are no smaller.
proof fn lemma_byte_len_take_le2(s: Seq<char>, a: int, b: int)
    requires
        0 <= a <= b <= s.len(),
    ensures
        byte_len(s.take(a)) <= byte_len(s.take(b)),
    decreases b - a,
{
    if a < b {
        lemma_byte_len_take_le2(s, a, b - 1);
        assert(s.take(b).drop_last() =~= s.take(b - 1));
    }
}

/// A prefix has no more bytes than the text.
proof fn lemma_byte_len_take_le(s: Seq<char>, a: int)
    requires
        0 <= a <= s.len(),
    ensures
        byte_len(s.take(a)) <= byte_len(s),
{
    lemma_byte_len_take_le2(s, a, s.len() as int);
    assert(s.take(s.len() as int) =~= s);
}

/// Prefixes are stricly longer in bytes as they grow.
proof fn lemma_byte_len_prefix_mono(s: Seq<char>, k: int)
    requires
        0 <= k <= s.len(),
    ensures
        forall|a: int, b: int| 0 <= a < b <= k ==> #[trigger] byte_len(s.take(a)) < #[trigger] byte_len(s.take(b)),
    decreases k,
{
    if k > 0 {
        lemma_byte_len_prefix_mono(s, k - 1);
        assert forall|a: int, b: int| 0 <= a < b <= k implies #[trigger] byte_len(s.take(a))
            < #[trigger] byte_len(s.take(b)) by {
            if b == k {
                assert(s.take(k).drop_last() =~= s.take(k - 1));
                if a < k - 1 {
                    assert(byte_len(s.take(a)) < byte_len(s.take(k - 1)));
                }
            }
        }
    }
}

/// Only one prefix has a given byte length.
proof fn lemma_byte_len_unique(s: Seq<char>, a: int, b: int)
    requires
        0 <= a <= s.len(),
        0 <= b <= s.len(),
        byte_len(s.take(a)) == byte_len(s.take(b)),
    ensures
        a == b,
{
    lemma_byte_len_prefix_mono(s, s.len() as int);
    if a < b {
        assert(byte_len(s.take(a)) < byte_len(s.take(b)));
    } else if b < a {
        assert(byte_len(s.take(b)) < byte_len(s.take(a)));
    }
}

/// Hours, minutes, seconds and nanoseconds as a duration, or `None` where a partial
/// sum leaves the range of durations (see `sum_duration`).
fn checked_duration(h: i64, m: i64, sec: i64, n: i64) -> (r: Option<GameDuration>)
    requires
        0 <= m < 60,
        0 <= sec < 60,
    ensures
        match r {
            Some(d) => sum_duration(h as int, m as int, sec as int, n as int)
                == DurationOutcome::Value(d.nanos as int),
            None => sum_duration(h as int, m as int, sec as int, n as int) is Fails,
        },
{
    let max_secs: i128 = 9223372036854775;
    let max_nanos: i128 = 9223372036854775807000000;
    let hs: i128 = h as i128 * 3600;
    if hs > max_secs || hs < -max_secs {
        return None;
    }
    let a: i128 = hs * 1000000000 + m as i128 * 60 * 1000000000;
    let b: i128 = a + sec as i128 * 1000000000;
    let c: i128 = b + n as i128;
    if a > max_nanos || a < -max_nanos || b > max_nanos || b < -max_nanos || c > max_nanos || c
        < -max_nanos {
        return None;
    }
    Some(GameDuration { nanos: c })
}

/// Reads `HH:MM:SS[.fraction]` (see `spec_parse_time_part`); `None` where the time
/// leaves the range of durations.
pub fn try_parse_time_part(t: &[char]) -> (r: Option<Result<GameDuration, DurationError>>)
    ensures
        match r {
            Some(x) => result_is(x, spec_parse_time_part(t@)),
            None => spec_parse_time_part(t@) is Fails,
        },
{
    let parts = split_chars(t, ':');
    proof {
        assert(seqs_of(parts@) == spec_split(t@, ':'));
    }
    if parts.len() != 3 {
        return Some(Err(DurationError::Shape(string_of(t))));
    }
    assert(parts@[0]@ == spec_split(t@, ':')[0]);
    assert(parts@[1]@ == spec_split(t@, ':')[1]);
    assert(parts@[2]@ == spec_split(t@, ':')[2]);
    let h = match parse_i64(parts[0].as_slice()) {
        Some(v) => v,
        None => {
            return Some(Err(DurationError::Hours(string_of(parts[0].as_slice()))));
        },
    };
    let m = match parse_i64(parts[1].as_slice()) {
        Some(v) => v,
        None => {
            return Some(Err(DurationError::Minutes(string_of(parts[1].as_slice()))));
        },
    };
    if m < 0 || m >= 60 {
        return Some(Err(DurationError::MinutesRange(m)));
    }
    let sp = &parts[2];
    proof {
        lemma_find_from_sound(sp@, seq!['.'], 0);
    }
    match find_char(sp.as_slice(), '.') {
        Some(d) => {
            let n = sp.len();
            assert(d < n);
            let secs = sub_chars(sp.as_slice(), 0, d);
            let frac = sub_chars(sp.as_slice(), d + 1, n);
            assert(secs@ =~= sp@.take(d as int));
            assert(frac@ =~= sp@.skip(d + 1));
            let s = match parse_i64(secs.as_slice()) {
                Some(v) => v,
                None => {
                    return Some(Err(DurationError::Seconds(string_of(secs.as_slice()))));
                },
            };
            if s < 0 || s >= 60 {
                return Some(Err(DurationError::SecondsRange(s)));
            }
            let mut padded = frac.clone();
            assert(padded@ == frac@);
            while padded.len() < 9
                invariant
                    frac@.len() <= padded@.len() <= 9 || padded@ == frac@,
                    padded@.take(frac@.len() as int) == frac@,
                    frac@.len() <= padded@.len(),
                    forall|j: int| frac@.len() <= j < padded@.len() ==> padded@[j] == '0',
                decreases 9 - padded@.len(),
            {
                padded.push('0');
            }
            assert(padded@ =~= padded_fraction(frac@));
            let nine = match cut_nine_bytes(&padded) {
                Some(v) => v,
                None => {
                    return None;
                },
            };
            let nanos = match parse_i64(nine.as_slice()) {
                Some(v) => v,
                None => {
                    return Some(Err(DurationError::Fraction(string_of(frac.as_slice()))));
                },
            };
            match checked_duration(h, m, s, nanos) {
                Some(v) => Some(Ok(v)),
                None => None,
            }
        },
        None => {
            let s = match parse_i64(sp.as_slice()) {
                Some(v) => v,
                None => {
                    return Some(Err(DurationError::Seconds(string_of(sp.as_slice()))));
                },
            };
            if s < 0 || s >= 60 {
                return Some(Err(DurationError::SecondsRange(s)));
            }
            match checked_duration(h, m, s, 0) {
                Some(v) => Some(Ok(v)),
                None => None,
            }
        },
    }
}

/// Reads `HH:MM:SS[.fraction]` (see `spec_parse_time_part`), on a time that stays
/// within the range of durations.
pub fn parse_time_part(t: &[char]) -> (r: Result<GameDuration, DurationError>)
    requires
        !(spec_parse_time_part(t@) is Fails),
    ensures
        result_is(r, spec_parse_time_part(t@)),
{
    match try_parse_time_part(t) {
        Some(x) => x,
        None => Err(DurationError::Unsupported(string_of(t))),
    }
}

/// Reads a duration text (see `spec_parse_duration`); `None` where the duration leaves
/// the range of durations.
pub fn try_parse_duration(text: &str) -> (r: Option<Result<GameDuration, DurationError>>)
    ensures
        match r {
            Some(x) => result_is(x, spec_parse_duration(text@)),
            None => spec_parse_duration(text@) is Fails,
        },
{
    let all = chars_of(text);
    let t = trim_chars(all.as_slice());
    proof {
        lemma_find_from_sound(t@, seq!['.'], 0);
    }
    if let Some(d) = find_char(t.as_slice(), '.') {
        let n = t.len();
        assert(d < n);
        let days_part = sub_chars(t.as_slice(), 0, d);
        let time_part = sub_chars(t.as_slice(), d + 1, n);
        assert(days_part@ =~= t@.take(d as int));
        assert(time_part@ =~= t@.skip(d + 1));
        if let Some(days) = parse_i64(days_part.as_slice()) {
            if find_char(time_part.as_slice(), ':').is_some() {
                match try_parse_time_part(time_part.as_slice()) {
                    Some(Ok(v)) => {
                        let max_secs: i128 = 9223372036854775;
                        let max_nanos: i128 = 9223372036854775807000000;
                        let ds: i128 = days as i128 * 86400;
                        if ds > max_secs || ds < -max_secs {
                            return None;
                        }
                        let total: i128 = ds * 1000000000 + v.nanos;
                        if total > max_nanos || total < -max_nanos {
                            return None;
                        }
                        return Some(Ok(GameDuration { nanos: total }));
                    },
                    other => {
                        return other;
                    },
                }
            }
        }
    }
    if find_char(t.as_slice(), ':').is_some() {
        return try_parse_time_part(t.as_slice());
    }
    Some(Err(DurationError::Unsupported(string_of(t.as_slice()))))
}

/// Reads a duration text (see `spec_parse_duration`), on a text whose duration stays
/// within the range of durations.
pub fn parse_duration_flexible(text: &str) -> (r: Result<GameDuration, DurationError>)
    requires
        !(spec_parse_duration(text@) is Fails),
    ensures
        result_is(r, spec_parse_duration(text@)),
{
    match try_parse_duration(text) {
        Some(x) => x,
        None => Err(DurationError::Unsupported(String::new())),
    }
}

/// A moment with its offset from UTC: milliseconds since the Unix epoch and seconds
/// east of UTC.
#[derive(Debug, Clone, Copy, PartialEq, Eq, Structural)]
pub struct GameInstant {
    pub millis: i64,
    pub offset_secs: i32,
}

/// Play statistics of an instance: when it was added, when it last ran, the total
/// time played and the length of the last session.
#[derive(Debug, Clone, Copy)]
pub struct GameTimeObj {
    pub add_time: GameInstant,
    pub last_time: GameInstant,
    pub game_time: GameDuration,
    pub last_play: GameDuration,
}

impl Default for GameTimeObj {
    /// The Unix epoch at UTC for both moments, and no time played.
    fn default() -> (r: Self)
        ensures
            r.add_time == (GameInstant { millis: 0, offset_secs: 0 }),
            r.last_time == (GameInstant { millis: 0, offset_secs: 0 }),
            r.game_time.nanos == 0,
            r.last_play.nanos == 0,
    {
        GameTimeObj {
            add_time: GameInstant { millis: 0, offset_secs: 0 },
            last_time: GameInstant { millis: 0, offset_secs: 0 },
            game_time: GameDuration { nanos: 0 },
            last_play: GameDuration { nanos: 0 },
        }
    }
}

} // verus!
