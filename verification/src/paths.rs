//! File system paths, known to contracts by their encoded bytes.

use std::path::{Path, PathBuf};
use vstd::prelude::*;

verus! {

#[verifier::external_type_specification]
#[verifier::external_body]
pub struct ExPath(std::path::Path);

#[verifier::external_type_specification]
#[verifier::external_body]
pub struct ExPathBuf(std::path::PathBuf);

/// The bytes that a `Path` holds.
pub uninterp spec fn path_bytes(path: &Path) -> Seq<u8>;

/// The bytes that a `PathBuf` holds.
pub uninterp spec fn path_buf_bytes(path: &PathBuf) -> Seq<u8>;

/// A path with a text behind it.
pub closed spec fn join_bytes(base: Seq<u8>, name: Seq<char>) -> Seq<u8> {
    joined_bytes(base, vstd::utf8::encode_utf8(name))
}

/// What `Path::join` makes of two paths.
pub uninterp spec fn joined_bytes(base: Seq<u8>, other: Seq<u8>) -> Seq<u8>;

/// What `Path::file_name` finds.
pub uninterp spec fn file_name_bytes(path: Seq<u8>) -> Option<Seq<u8>>;

/// The file name of a path as text.
pub open spec fn file_name_text(path: Seq<u8>) -> Option<Seq<char>> {
    match file_name_bytes(path) {
        Some(name) => Some(lossy_path(name)),
        None => None,
    }
}

/// What `Path::file_stem` finds.
pub uninterp spec fn file_stem_bytes(path: Seq<u8>) -> Option<Seq<u8>>;

/// The file name of a path without its extension, as text.
pub open spec fn file_stem_text(path: Seq<u8>) -> Option<Seq<char>> {
    match file_stem_bytes(path) {
        Some(stem) => Some(lossy_path(stem)),
        None => None,
    }
}

/// What `Path::extension` finds.
pub uninterp spec fn extension_bytes(path: Seq<u8>) -> Option<Seq<u8>>;

/// The extension of a path as text.
pub open spec fn extension_text(path: Seq<u8>) -> Option<Seq<char>> {
    match extension_bytes(path) {
        Some(extension) => Some(lossy_path(extension)),
        None => None,
    }
}

/// What `Path::parent` finds.
pub uninterp spec fn parent_bytes(path: Seq<u8>) -> Option<Seq<u8>>;

/// What `Path::display` shows.
pub uninterp spec fn shown_path(path: Seq<u8>) -> Seq<char>;

/// What `Path::to_string_lossy` gives.
pub uninterp spec fn lossy_path(path: Seq<u8>) -> Seq<char>;

/// What the equality of paths compares: two paths are equal exactly when this is.
pub uninterp spec fn path_class(path: Seq<u8>) -> Seq<Seq<u8>>;

/// Whether `Path::starts_with` holds of a path and a base.
pub uninterp spec fn lies_under(path: Seq<u8>, base: Seq<u8>) -> bool;

/// What `Path::with_file_name` makes of a path and a name.
pub uninterp spec fn renamed_bytes(path: Seq<u8>, name: Seq<char>) -> Seq<u8>;

/// What `Path::with_extension` makes of a path and an extension.
pub uninterp spec fn extended_bytes(path: Seq<u8>, extension: Seq<char>) -> Seq<u8>;

/// The bytes of a path, borrowed or owned.
pub trait PathBytes {
    spec fn bytes(&self) -> Seq<u8>;
}

impl PathBytes for Path {
    open spec fn bytes(&self) -> Seq<u8> {
        path_bytes(self)
    }
}

impl PathBytes for PathBuf {
    open spec fn bytes(&self) -> Seq<u8> {
        path_buf_bytes(self)
    }
}

/// The bytes of an optional path.
pub open spec fn opt_bytes(path: Option<PathBuf>) -> Option<Seq<u8>> {
    match path {
        Some(p) => Some(p.bytes()),
        None => None,
    }
}

/// `PathBuf::as_path` borrows the path: the bytes stay the same.
pub assume_specification[ PathBuf::as_path ](path: &PathBuf) -> (r: &Path)
    ensures
        path_bytes(r) == path_buf_bytes(path),
;

/// `PathBuf::clone` gives a path with the same contents.
pub assume_specification[ <PathBuf as Clone>::clone ](path: &PathBuf) -> (r: PathBuf)
    ensures
        r == *path,
;

/// `Path::to_path_buf` copies the path: the bytes stay the same.
pub assume_specification[ Path::to_path_buf ](path: &Path) -> (r: PathBuf)
    ensures
        path_buf_bytes(&r) == path_bytes(path),
;

/// `PathBuf::from` takes a text over as it is, so its bytes are those of the text in UTF-8.
#[verifier::external_body]
pub(crate) fn path_from(text: &str) -> (r: PathBuf)
    ensures
        path_buf_bytes(&r) == vstd::utf8::encode_utf8(text@),
{
    PathBuf::from(text)
}

/// A path with a text behind it.
pub(crate) fn join(base: &Path, name: &str) -> (r: PathBuf)
    ensures
        r.bytes() == join_bytes(base.bytes(), name@),
{
    join_path(base, path_from(name).as_path())
}

/// `Path::join` appends a path to another; the result is a function of the two.
#[verifier::external_body]
pub(crate) fn join_path(base: &Path, other: &Path) -> (r: PathBuf)
    ensures
        path_buf_bytes(&r) == joined_bytes(path_bytes(base), path_bytes(other)),
{
    base.join(other)
}

/// `Path::file_name` gives the last component of a path, where that is a normal one.
#[verifier::external_body]
pub(crate) fn file_name_path(path: &Path) -> (r: Option<PathBuf>)
    ensures
        opt_bytes(r) == file_name_bytes(path_bytes(path)),
{
    path.file_name().map(PathBuf::from)
}

/// The file name of a path as text.
pub(crate) fn file_name(path: &Path) -> (r: Option<String>)
    ensures
        crate::text::opt_text(r) == file_name_text(path.bytes()),
{
    match file_name_path(path) {
        Some(name) => Some(lossy(name.as_path())),
        None => None,
    }
}

/// `Path::file_stem` gives the file name without its extension.
#[verifier::external_body]
pub(crate) fn file_stem_path(path: &Path) -> (r: Option<PathBuf>)
    ensures
        opt_bytes(r) == file_stem_bytes(path_bytes(path)),
{
    path.file_stem().map(PathBuf::from)
}

/// The file name of a path without its extension, as text.
pub(crate) fn file_stem(path: &Path) -> (r: Option<String>)
    ensures
        crate::text::opt_text(r) == file_stem_text(path.bytes()),
{
    match file_stem_path(path) {
        Some(stem) => Some(lossy(stem.as_path())),
        None => None,
    }
}

/// `Path::extension` gives what follows the last dot of the file name.
#[verifier::external_body]
pub(crate) fn extension_path(path: &Path) -> (r: Option<PathBuf>)
    ensures
        opt_bytes(r) == extension_bytes(path_bytes(path)),
{
    path.extension().map(PathBuf::from)
}

/// The extension of a path as text.
pub(crate) fn extension(path: &Path) -> (r: Option<String>)
    ensures
        crate::text::opt_text(r) == extension_text(path.bytes()),
{
    match extension_path(path) {
        Some(extension) => Some(lossy(extension.as_path())),
        None => None,
    }
}

/// `Path::parent` gives the path without its last component.
#[verifier::external_body]
pub(crate) fn parent(path: &Path) -> (r: Option<PathBuf>)
    ensures
        opt_bytes(r) == parent_bytes(path_bytes(path)),
{
    path.parent().map(|parent| parent.to_path_buf())
}

/// `Path::display` shows the path as text; the text is a function of the path.
#[verifier::external_body]
pub(crate) fn shown(path: &Path) -> (r: String)
    ensures
        r@ == shown_path(path_bytes(path)),
{
    path.display().to_string()
}

/// `Path::to_string_lossy` gives the path as text; the text is a function of the path. A path that
/// holds a text in UTF-8 comes back as that text.
#[verifier::external_body]
pub(crate) fn lossy(path: &Path) -> (r: String)
    ensures
        r@ == lossy_path(path_bytes(path)),
        forall|text: Seq<char>| #[trigger]
            vstd::utf8::encode_utf8(text) == path_bytes(path) ==> r@ == text,
{
    path.to_string_lossy().into_owned()
}

/// The equality of `Path` is an equivalence relation: it holds exactly of the paths of one class.
#[verifier::external_body]
pub(crate) fn same_path(a: &Path, b: &Path) -> (r: bool)
    ensures
        r == (path_class(path_bytes(a)) == path_class(path_bytes(b))),
{
    a == b
}

/// `Path::starts_with` tells whether a base is a prefix of a path; a function of the two.
#[verifier::external_body]
pub(crate) fn starts_with(path: &Path, base: &Path) -> (r: bool)
    ensures
        r == lies_under(path_bytes(path), path_bytes(base)),
{
    path.starts_with(base)
}

/// `Path::with_file_name` exchanges the file name; the result is a function of path and name.
#[verifier::external_body]
pub(crate) fn with_file_name(path: &Path, name: &str) -> (r: PathBuf)
    ensures
        path_buf_bytes(&r) == renamed_bytes(path_bytes(path), name@),
{
    path.with_file_name(name)
}

/// `Path::with_extension` exchanges the extension; the result is a function of the two. It panics
/// where the extension holds a path separator.
#[verifier::external_body]
pub(crate) fn with_extension(path: &Path, extension: &str) -> (r: PathBuf)
    requires
        !extension@.contains('/'),
        !extension@.contains('\\'),
    ensures
        path_buf_bytes(&r) == extended_bytes(path_bytes(path), extension@),
{
    path.with_extension(extension)
}

/// The file name of a path, or the path as shown where it has none.
pub open spec fn title_of(path: Seq<u8>) -> Seq<char> {
    match file_name_text(path) {
        Some(name) => name,
        None => shown_path(path),
    }
}

/// The file name of a path, or the path as shown where it has none.
pub fn title(path: &Path) -> (r: String)
    ensures
        r@ == title_of(path.bytes()),
{
    match file_name(path) {
        Some(name) => name,
        None => shown(path),
    }
}

/// The classes of the paths in a list.
pub open spec fn classes(list: Seq<PathBuf>) -> Set<Seq<Seq<u8>>> {
    Set::new(
        |c: Seq<Seq<u8>>|
            exists|i: int|
                #![trigger list[i]]
                0 <= i < list.len() && path_class(list[i].bytes()) == c,
    )
}

/// Whether no two paths in a list are equal.
pub open spec fn no_path_twice(list: Seq<PathBuf>) -> bool {
    forall|i: int, j: int|
        #![trigger list[i], list[j]]
        0 <= i < j < list.len() ==> path_class(list[i].bytes()) != path_class(list[j].bytes())
}

/// A set of paths, kept in the order in which they came in.
pub struct PathSet {
    paths: Vec<PathBuf>,
}

impl View for PathSet {
    type V = Set<Seq<Seq<u8>>>;

    closed spec fn view(&self) -> Set<Seq<Seq<u8>>> {
        classes(self.paths@)
    }
}

impl PathSet {
    /// No path is held twice.
    #[verifier::type_invariant]
    spec fn well_formed(&self) -> bool {
        no_path_twice(self.paths@)
    }

    /// The empty set.
    pub fn new() -> (r: PathSet)
        ensures
            r@ == Set::<Seq<Seq<u8>>>::empty(),
    {
        let r = PathSet { paths: Vec::new() };
        assert(classes(r.paths@) =~= Set::<Seq<Seq<u8>>>::empty());
        r
    }

    fn position(&self, path: &Path) -> (r: Option<usize>)
        ensures
            match r {
                Some(i) => i < self.paths@.len() && path_class(self.paths@[i as int].bytes())
                    == path_class(path.bytes()),
                None => forall|i: int|
                    0 <= i < self.paths@.len() ==> path_class(#[trigger] self.paths@[i].bytes())
                        != path_class(path.bytes()),
            },
    {
        let mut i: usize = 0;
        while i < self.paths.len()
            invariant
                0 <= i <= self.paths@.len(),
                forall|j: int|
                    0 <= j < i ==> path_class(#[trigger] self.paths@[j].bytes()) != path_class(
                        path.bytes(),
                    ),
            decreases self.paths@.len() - i,
        {
            if same_path(self.paths[i].as_path(), path) {
                return Some(i);
            }
            i += 1;
        }
        None
    }

    /// Whether an equal path is in the set.
    pub fn contains(&self, path: &Path) -> (r: bool)
        ensures
            r == self@.contains(path_class(path.bytes())),
    {
        self.position(path).is_some()
    }

    /// Adds a path.
    pub fn insert(&mut self, path: PathBuf)
        ensures
            final(self)@ == old(self)@.insert(path_class(path.bytes())),
    {
        proof {
            use_type_invariant(&*self);
        }
        let ghost before = self.paths@;
        let ghost class = path_class(path.bytes());
        if !self.contains(path.as_path()) {
            let mut paths: Vec<PathBuf> = Vec::new();
            std::mem::swap(&mut paths, &mut self.paths);
            paths.push(path);
            proof {
                assert(paths@ == before.push(path));
                assert forall|c: Seq<Seq<u8>>| #[trigger]
                    classes(before).insert(class).contains(c) implies classes(paths@).contains(
                    c,
                ) by {
                    if c == class {
                        assert(path_class(paths@[before.len() as int].bytes()) == c);
                    } else {
                        let k = choose|k: int|
                            #![trigger before[k]]
                            0 <= k < before.len() && path_class(before[k].bytes()) == c;
                        assert(paths@[k] == before[k]);
                    }
                }
                assert forall|c: Seq<Seq<u8>>| #[trigger] classes(paths@).contains(c) implies classes(
                    before,
                ).insert(class).contains(c) by {
                    let k = choose|k: int|
                        #![trigger paths@[k]]
                        0 <= k < paths@.len() && path_class(paths@[k].bytes()) == c;
                    if k < before.len() {
                        assert(before[k] == paths@[k]);
                    }
                }
                assert(classes(paths@) =~= classes(before).insert(class));
                assert(no_path_twice(paths@)) by {
                    assert forall|i: int, j: int|
                        #![trigger paths@[i], paths@[j]]
                        0 <= i < j < paths@.len() implies path_class(paths@[i].bytes())
                        != path_class(paths@[j].bytes()) by {
                        assert(paths@[i] == before[i]);
                        if j < before.len() {
                            assert(paths@[j] == before[j]);
                        } else {
                            assert(classes(before).contains(path_class(before[i].bytes())));
                        }
                    }
                }
            }
            self.paths = paths;
        } else {
            assert(classes(before) =~= classes(before).insert(class));
        }
    }

    /// Takes a path out.
    pub fn remove(&mut self, path: &Path)
        ensures
            final(self)@ == old(self)@.remove(path_class(path.bytes())),
    {
        proof {
            use_type_invariant(&*self);
        }
        let ghost before = self.paths@;
        let ghost class = path_class(path.bytes());
        match self.position(path) {
            Some(i) => {
                let mut paths: Vec<PathBuf> = Vec::new();
                std::mem::swap(&mut paths, &mut self.paths);
                paths.remove(i);
                proof {
                    let ii = i as int;
                    assert(paths@ == before.remove(ii));
                    assert forall|k: int| 0 <= k < paths@.len() implies #[trigger] paths@[k]
                        == before[if k < ii { k } else { k + 1 }] by {}
                    assert forall|c: Seq<Seq<u8>>| #[trigger]
                        classes(before).remove(class).contains(c) implies classes(paths@).contains(
                        c,
                    ) by {
                        let k = choose|k: int|
                            #![trigger before[k]]
                            0 <= k < before.len() && path_class(before[k].bytes()) == c;
                        if k < ii {
                            assert(paths@[k] == before[k]);
                        } else {
                            assert(k != ii);
                            assert(paths@[k - 1] == before[k]);
                        }
                    }
                    assert forall|c: Seq<Seq<u8>>| #[trigger]
                        classes(paths@).contains(c) implies classes(before).remove(class).contains(
                        c,
                    ) by {
                        let k = choose|k: int|
                            #![trigger paths@[k]]
                            0 <= k < paths@.len() && path_class(paths@[k].bytes()) == c;
                        let m = if k < ii {
                            k
                        } else {
                            k + 1
                        };
                        assert(before[m] == paths@[k]);
                        assert(m != ii);
                        if m < ii {
                            assert(path_class(before[m].bytes()) != path_class(before[ii].bytes()));
                        } else {
                            assert(path_class(before[ii].bytes()) != path_class(before[m].bytes()));
                        }
                    }
                    assert(classes(paths@) =~= classes(before).remove(class));
                    assert(no_path_twice(paths@)) by {
                        assert forall|a: int, b: int|
                            #![trigger paths@[a], paths@[b]]
                            0 <= a < b < paths@.len() implies path_class(paths@[a].bytes())
                            != path_class(paths@[b].bytes()) by {
                            let ma = if a < ii { a } else { a + 1 };
                            let mb = if b < ii { b } else { b + 1 };
                            assert(paths@[a] == before[ma] && paths@[b] == before[mb]);
                        }
                    }
                }
                self.paths = paths;
            },
            None => {
                assert(classes(before) =~= classes(before).remove(class));
            },
        }
    }
}

/// Every path has a title: its file name where it has one, else the path itself.
pub proof fn every_path_has_a_title(path: Seq<u8>)
    ensures
        file_name_bytes(path) matches Some(name) ==> title_of(path) == lossy_path(name),
        file_name_bytes(path) is None ==> title_of(path) == shown_path(path),
{
}

}
