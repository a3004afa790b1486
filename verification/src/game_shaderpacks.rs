//! Shader packs: their names and descriptions, read from their language files.
use vstd::prelude::*;

use crate::file_item::PathObj;
use crate::game_options::{read_options, spec_read_options, text_map};
use crate::launcher_path::keyed_cache::KeyedCache;
use crate::text::{copy_str, ends_with, push_str, spec_ends_with};

verus! {

/// A shader pack: its name, its description and its file.
#[derive(Debug)]
pub struct ShaderpackObj {
    pub name: String,
    pub comment: String,
    pub file: PathObj,
}

impl Default for ShaderpackObj {
    fn default() -> (r: Self)
        ensures
            r.name@ == Seq::<char>::empty(),
            r.comment@ == Seq::<char>::empty(),
            r.file@ == Seq::<Seq<char>>::empty(),
    {
        ShaderpackObj { name: String::new(), comment: String::new(), file: PathObj::empty() }
    }
}

/// The value of the first key present, looking at the keys from the last to the first;
/// `current` where none is.
pub open spec fn last_present(m: Map<Seq<char>, Seq<char>>, keys: Seq<Seq<char>>, current: Seq<char>) -> Seq<char>
    decreases keys.len(),
{
    if keys.len() == 0 {
        current
    } else if m.contains_key(keys.last()) {
        m[keys.last()]
    } else {
        last_present(m, keys.drop_last(), current)
    }
}

/// The keys a shader pack's name is read from, in rising priority.
pub open spec fn name_keys() -> Seq<Seq<char>> {
    seq!["option.ABOUT"@, "screen.ABOUT"@, "option.ACERCADE"@]
}

/// The keys a shader pack's description is read from, in rising priority.
pub open spec fn comment_keys() -> Seq<Seq<char>> {
    seq!["option.ABOUT.comment"@, "option.ACERCADE.comment"@]
}

/// Replaces `target` with the value of `key`, where the options hold it.
fn take_option(options: &KeyedCache<String, String>, key: &str, target: &mut String)
    requires
        options.wf(),
    ensures
        final(target)@ == if text_map(options@).contains_key(key@) {
            text_map(options@)[key@]
        } else {
            old(target)@
        },
{
    let k = copy_str(key);
    match options.get(&k) {
        Some(v) => {
            *target = copy_str(v.as_str());
        },
        None => {},
    }
}

/// Reads a shader pack's name and description from a language file: its options, with
/// `=` as the separator, under the keys of `name_keys` and `comment_keys`.
pub fn read_data(text: &str, obj: &mut ShaderpackObj)
    ensures
        final(obj).name@ == last_present(spec_read_options(text@, Some('=')), name_keys(), old(obj).name@),
        final(obj).comment@ == last_present(
            spec_read_options(text@, Some('=')),
            comment_keys(),
            old(obj).comment@,
        ),
        final(obj).file == old(obj).file,
{
    let options = read_options(text, Some('='));
    take_option(&options, "option.ABOUT", &mut obj.name);
    take_option(&options, "screen.ABOUT", &mut obj.name);
    take_option(&options, "option.ACERCADE", &mut obj.name);
    take_option(&options, "option.ABOUT.comment", &mut obj.comment);
    take_option(&options, "option.ACERCADE.comment", &mut obj.comment);
    proof {
        let m = spec_read_options(text@, Some('='));
        reveal_with_fuel(last_present, 4);
        assert(name_keys().drop_last() =~= seq!["option.ABOUT"@, "screen.ABOUT"@]);
        assert(name_keys().drop_last().drop_last() =~= seq!["option.ABOUT"@]);
        assert(name_keys().drop_last().drop_last().drop_last() =~= Seq::<Seq<char>>::empty());
        assert(comment_keys().drop_last() =~= seq!["option.ABOUT.comment"@]);
        assert(comment_keys().drop_last().drop_last() =~= Seq::<Seq<char>>::empty());
    }
}

/// An entry of a shader pack archive is a language file to read: that of the language
/// `lang`, or the English one.
pub open spec fn spec_is_lang_entry(entry: Seq<char>, lang: Seq<char>) -> bool {
    spec_ends_with(entry, "lang/"@ + lang + ".lang"@) || spec_ends_with(entry, "lang/en_US.lang"@)
}

/// Whether an entry of a shader pack archive is a language file to read.
pub fn is_lang_entry(entry: &str, lang: &str) -> (r: bool)
    ensures
        r == spec_is_lang_entry(entry@, lang@),
{
    let mut own = copy_str("lang/");
    push_str(&mut own, lang);
    push_str(&mut own, ".lang");
    ends_with(entry, own.as_str()) || ends_with(entry, "lang/en_US.lang")
}

/// A shader pack whose language files give no name is named by its file name.
pub fn name_or_file_name(obj: &mut ShaderpackObj, file_name: &str)
    ensures
        final(obj).name@ == if old(obj).name@.len() == 0 {
            file_name@
        } else {
            old(obj).name@
        },
        final(obj).comment == old(obj).comment,
        final(obj).file == old(obj).file,
{
    if obj.name.as_str().is_empty() {
        obj.name = copy_str(file_name);
    }
}

} // verus!
