//! Paths as sequences of joined parts, and download items.
use vstd::prelude::*;

use crate::text::{copy_str, push_char, push_str};

verus! {

/// A path: the parts that are joined, in order, to form it (the first part is the base
/// directory as the system writes it).
#[derive(Debug)]
pub struct PathObj {
    pub parts: Vec<String>,
}

impl View for PathObj {
    type V = Seq<Seq<char>>;

    open spec fn view(&self) -> Seq<Seq<char>> {
        self.parts@.map_values(|s: String| s@)
    }
}

impl PathObj {
    /// The path with no parts.
    pub fn empty() -> (r: PathObj)
        ensures
            r@ == Seq::<Seq<char>>::empty(),
    {
        let r = PathObj { parts: Vec::new() };
        assert(r@ =~= Seq::<Seq<char>>::empty());
        r
    }

    /// A path of one part.
    pub fn from_str(base: &str) -> (r: PathObj)
        ensures
            r@ == seq![base@],
    {
        let mut parts: Vec<String> = Vec::new();
        parts.push(copy_str(base));
        let r = PathObj { parts };
        assert(r@ =~= seq![base@]);
        r
    }

    /// A copy of the path.
    pub fn copy(&self) -> (r: PathObj)
        ensures
            r@ == self@,
    {
        let mut parts: Vec<String> = Vec::new();
        let mut i: usize = 0;
        while i < self.parts.len()
            invariant
                i <= self.parts@.len(),
                parts@.map_values(|s: String| s@) == self@.take(i as int),
            decreases self.parts@.len() - i,
        {
            let ghost before = parts@;
            parts.push(copy_str(self.parts[i].as_str()));
            assert(parts@.map_values(|s: String| s@) =~= before.map_values(|s: String| s@).push(
                self.parts@[i as int]@,
            ));
            i = i + 1;
            assert(parts@.map_values(|s: String| s@) =~= self@.take(i as int));
        }
        let r = PathObj { parts };
        assert(r@ =~= self@);
        r
    }

    /// The path with one more part joined to it.
    pub fn join(&self, part: &str) -> (r: PathObj)
        ensures
            r@ == self@.push(part@),
    {
        let mut r = self.copy();
        let ghost before = r.parts@;
        r.parts.push(copy_str(part));
        assert(r@ =~= before.map_values(|s: String| s@).push(part@));
        r
    }

    /// The path with its last part replaced by `name` (the part joined, where there is
    /// none).
    pub fn with_file_name(&self, name: &str) -> (r: PathObj)
        ensures
            r@ == (if self@.len() > 0 {
                self@.drop_last().push(name@)
            } else {
                self@.push(name@)
            }),
    {
        let mut r = self.copy();
        if r.parts.len() > 0 {
            let ghost before = r.parts@;
            let last = r.parts.len() - 1;
            r.parts.set(last, copy_str(name));
            assert(r@ =~= self@.drop_last().push(name@)) by {
                assert(before.map_values(|s: String| s@) == self@);
            }
        } else {
            let ghost before = r.parts@;
            r.parts.push(copy_str(name));
            assert(r@ =~= before.map_values(|s: String| s@).push(name@));
        }
        r
    }

    /// The path with one more part, given as a `String`, joined to it.
    pub fn join_string(&self, part: String) -> (r: PathObj)
        ensures
            r@ == self@.push(part@),
    {
        let mut r = self.copy();
        let ghost before = r.parts@;
        r.parts.push(part);
        assert(r@ =~= before.map_values(|s: String| s@).push(part@));
        r
    }
}

/// The text of a path: its parts joined by the separator `sep`.
pub open spec fn spec_display(parts: Seq<Seq<char>>, sep: char) -> Seq<char>
    decreases parts.len(),
{
    if parts.len() == 0 {
        Seq::empty()
    } else if parts.len() == 1 {
        parts[0]
    } else {
        spec_display(parts.drop_last(), sep) + seq![sep] + parts.last()
    }
}

impl PathObj {
    /// The text of the path, its parts joined by the separator `sep`.
    pub fn display(&self, sep: char) -> (r: String)
        ensures
            r@ == spec_display(self@, sep),
    {
        let mut r = String::new();
        let mut i: usize = 0;
        assert(self@.take(0) =~= Seq::<Seq<char>>::empty());
        while i < self.parts.len()
            invariant
                i <= self.parts@.len(),
                r@ == spec_display(self@.take(i as int), sep),
            decreases self.parts@.len() - i,
        {
            if i > 0 {
                push_char(&mut r, sep);
            }
            push_str(&mut r, self.parts[i].as_str());
            assert(self@.take(i + 1).drop_last() =~= self@.take(i as int));
            i = i + 1;
        }
        assert(self@.take(i as int) =~= self@);
        r
    }
}

/// The checksum of a download.
#[derive(Debug)]
pub enum FileHash {
    NoHash,
    Sha1(String),
    Sha256(String),
    /// Both checksums, SHA-1 first.
    Sha1Sha256(String, String),
}

impl Default for FileHash {
    fn default() -> (r: Self)
        ensures
            r is NoHash,
    {
        FileHash::NoHash
    }
}

/// What to do with a file once it is downloaded.
#[derive(Debug)]
pub enum LaterRun {
    Nothing,
    /// Unpack it into this directory.
    Unpack(PathObj),
    /// Unpack its native libraries into this directory.
    UnpackNative(PathObj),
}

impl Default for LaterRun {
    fn default() -> (r: Self)
        ensures
            r is Nothing,
    {
        LaterRun::Nothing
    }
}

/// A file to download: its name, where it goes, where it comes from and its checksum.
#[derive(Debug)]
pub struct FileItemObj {
    pub name: String,
    pub file: PathObj,
    pub url: String,
    pub hash: FileHash,
    pub later: LaterRun,
}

impl Default for FileItemObj {
    fn default() -> (r: Self)
        ensures
            r.name@ == Seq::<char>::empty(),
            r.file@ == Seq::<Seq<char>>::empty(),
            r.url@ == Seq::<char>::empty(),
            r.hash is NoHash,
            r.later is Nothing,
    {
        FileItemObj {
            name: String::new(),
            file: PathObj::empty(),
            url: String::new(),
            hash: FileHash::NoHash,
            later: LaterRun::Nothing,
        }
    }
}

/// What a checksum holds.
pub enum HashView {
    NoHash,
    Sha1(Seq<char>),
    Sha256(Seq<char>),
    Sha1Sha256(Seq<char>, Seq<char>),
}

/// What is done with a file once downloaded.
pub enum LaterView {
    Nothing,
    Unpack(Seq<Seq<char>>),
    UnpackNative(Seq<Seq<char>>),
}

/// What a download item holds.
pub struct ItemView {
    pub name: Seq<char>,
    pub file: Seq<Seq<char>>,
    pub url: Seq<char>,
    pub hash: HashView,
    pub later: LaterView,
}

impl View for FileItemObj {
    type V = ItemView;

    open spec fn view(&self) -> ItemView {
        ItemView {
            name: self.name@,
            file: self.file@,
            url: self.url@,
            hash: match self.hash {
                FileHash::NoHash => HashView::NoHash,
                FileHash::Sha1(h) => HashView::Sha1(h@),
                FileHash::Sha256(h) => HashView::Sha256(h@),
                FileHash::Sha1Sha256(a, b) => HashView::Sha1Sha256(a@, b@),
            },
            later: match self.later {
                LaterRun::Nothing => LaterView::Nothing,
                LaterRun::Unpack(p) => LaterView::Unpack(p@),
                LaterRun::UnpackNative(p) => LaterView::UnpackNative(p@),
            },
        }
    }
}

impl FileItemObj {
    /// A copy of the item.
    pub fn copy(&self) -> (r: FileItemObj)
        ensures
            r@ == self@,
    {
        FileItemObj {
            name: copy_str(self.name.as_str()),
            file: self.file.copy(),
            url: copy_str(self.url.as_str()),
            hash: match &self.hash {
                FileHash::NoHash => FileHash::NoHash,
                FileHash::Sha1(h) => FileHash::Sha1(copy_str(h.as_str())),
                FileHash::Sha256(h) => FileHash::Sha256(copy_str(h.as_str())),
                FileHash::Sha1Sha256(a, b) => FileHash::Sha1Sha256(
                    copy_str(a.as_str()),
                    copy_str(b.as_str()),
                ),
            },
            later: match &self.later {
                LaterRun::Nothing => LaterRun::Nothing,
                LaterRun::Unpack(p) => LaterRun::Unpack(p.copy()),
                LaterRun::UnpackNative(p) => LaterRun::UnpackNative(p.copy()),
            },
        }
    }
}

/// The views of a list of download items.
pub open spec fn items_view(v: Seq<FileItemObj>) -> Seq<ItemView> {
    v.map_values(|i: FileItemObj| i@)
}

/// `format!("{a}{b}")`.
pub fn concat(a: &str, b: &str) -> (r: String)
    ensures
        r@ == a@ + b@,
{
    let mut r = copy_str(a);
    push_str(&mut r, b);
    r
}

} // verus!
