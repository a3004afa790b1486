//! Option files of a game: lines of a key, a separator and a value.
use vstd::prelude::*;

use crate::launcher_path::keyed_cache::KeyedCache;
use crate::mojang::version_parse::sub_chars;
use crate::text::{
    chars_of, find_char, lemma_find_from_sound, push_char, push_str, spec_find, string_of,
};

verus! {

/// A text cut at the first `sp`: the key before it and the value after it; the whole
/// text and no value where `sp` does not occur.
pub open spec fn split_once(s: Seq<char>, sp: char) -> (Seq<char>, Seq<char>) {
    match spec_find(s, seq![sp]) {
        Some(k) => (s.take(k), s.skip(k + 1)),
        None => (s, Seq::empty()),
    }
}

/// Position `e` ends a line read: it follows a line feed, or it ends the text.
pub open spec fn ends_line(text: Seq<char>, e: int) -> bool {
    0 < e <= text.len() && (text[e - 1] == '\n' || e == text.len())
}

/// The options read from the first `n` characters of a text. The lines are read into
/// one growing buffer that is never emptied, so each line read adds the key and value
/// of everything read so far, cut at its first separator.
pub open spec fn options_upto(text: Seq<char>, sp: char, n: int) -> Map<Seq<char>, Seq<char>>
    decreases n,
{
    if n <= 0 {
        Map::empty()
    } else {
        let prev = options_upto(text, sp, n - 1);
        if ends_line(text, n) {
            let (k, v) = split_once(text.take(n), sp);
            prev.insert(k, v)
        } else {
            prev
        }
    }
}

/// The options of a text (see `options_upto`), with `:` as the separator unless
/// another is given.
pub open spec fn spec_read_options(text: Seq<char>, sp: Option<char>) -> Map<Seq<char>, Seq<char>> {
    options_upto(
        text,
        match sp {
            Some(c) => c,
            None => ':',
        },
        text.len() as int,
    )
}

/// A text cut at the first `sp` (see `split_once`).
pub(crate) fn cut_once(s: &[char], sp: char) -> (r: (String, String))
    ensures
        (r.0@, r.1@) == split_once(s@, sp),
{
    proof {
        lemma_find_from_sound(s@, seq![sp], 0);
    }
    match find_char(s, sp) {
        Some(k) => {
            let key = sub_chars(s, 0, k);
            let n = s.len();
            assert(k < n);
            let value = sub_chars(s, k + 1, n);
            assert(key@ =~= s@.take(k as int));
            assert(value@ =~= s@.skip(k + 1));
            (string_of(key.as_slice()), string_of(value.as_slice()))
        },
        None => (string_of(s), String::new()),
    }
}

/// The texts of a map of strings.
pub open spec fn text_map(m: Map<Seq<char>, String>) -> Map<Seq<char>, Seq<char>> {
    m.map_values(|v: String| v@)
}

/// The options of a text (see `spec_read_options`).
pub fn read_options(text: &str, sp: Option<char>) -> (r: KeyedCache<String, String>)
    ensures
        r.wf(),
        text_map(r@) == spec_read_options(text@, sp),
{
    let sep = match sp {
        Some(c) => c,
        None => ':',
    };
    let chars = chars_of(text);
    let mut data: KeyedCache<String, String> = KeyedCache::new();
    assert(text_map(data@) =~= Map::<Seq<char>, Seq<char>>::empty());
    let mut i: usize = 0;
    while i < chars.len()
        invariant
            chars@ == text@,
            i <= chars@.len(),
            data.wf(),
            text_map(data@) == options_upto(text@, sep, i as int),
        decreases chars@.len() - i,
    {
        if chars[i] == '\n' || i + 1 == chars.len() {
            let read = sub_chars(chars.as_slice(), 0, i + 1);
            assert(read@ =~= text@.take(i + 1));
            let (key, value) = cut_once(read.as_slice(), sep);
            let ghost before = data@;
            let ghost kv = (key@, value@);
            data.insert(key, value);
            assert(text_map(data@) =~= text_map(before).insert(kv.0, kv.1));
        }
        i = i + 1;
    }
    data
}

/// The text of an option file: each option as its key, the separator, its value and the
/// line ending, in order.
pub open spec fn spec_options_text(list: Seq<(Seq<char>, Seq<char>)>, sp: char, ending: Seq<char>) -> Seq<char>
    decreases list.len(),
{
    if list.len() == 0 {
        Seq::empty()
    } else {
        spec_options_text(list.drop_last(), sp, ending) + list.last().0 + seq![sp] + list.last().1
            + ending
    }
}

/// The texts of a list of options.
pub open spec fn pairs_view(list: Seq<(String, String)>) -> Seq<(Seq<char>, Seq<char>)> {
    list.map_values(|p: (String, String)| (p.0@, p.1@))
}

/// The text of an option file (see `spec_options_text`), with `:` as the separator
/// unless another is given.
pub fn options_text(list: &Vec<(String, String)>, sp: Option<char>, ending: &str) -> (r: String)
    ensures
        r@ == spec_options_text(
            pairs_view(list@),
            match sp {
                Some(c) => c,
                None => ':',
            },
            ending@,
        ),
{
    let sep = match sp {
        Some(c) => c,
        None => ':',
    };
    let mut r = String::new();
    let mut i: usize = 0;
    while i < list.len()
        invariant
            i <= list@.len(),
            r@ == spec_options_text(pairs_view(list@).take(i as int), sep, ending@),
        decreases list@.len() - i,
    {
        assert(pairs_view(list@).take(i + 1).drop_last() =~= pairs_view(list@).take(i as int));
        push_str(&mut r, list[i].0.as_str());
        push_char(&mut r, sep);
        push_str(&mut r, list[i].1.as_str());
        push_str(&mut r, ending);
        i = i + 1;
    }
    assert(pairs_view(list@).take(i as int) =~= pairs_view(list@));
    r
}

} // verus!
