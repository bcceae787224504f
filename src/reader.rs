use std::sync::Arc;
use vstd::prelude::*;
use vstd::utf8::{decode_utf8, valid_utf8};

use crate::index::{has_resource, is_child, is_directory, lookup, EntryView, ResourceIndex};
use crate::paths::{normalize, normalized, dir_view, cviews, join, join_all, join_chars, is_last_segment, last_segment};
use crate::text::{chars_equal, chars_of, lemma_sorted_unique, string_of, strictly_sorted, strings_of, views};

verus! {

/// Why a lookup in the in-memory resources failed.
#[derive(Debug, Clone, Copy, PartialEq, Eq, Structural)]
pub enum ResourceError {
    /// No resource, or no real filesystem path, exists for the name.
    NotFound,
    /// The resource's bytes are not valid UTF-8 text.
    InvalidText,
}

/// A resource opened through a traversable path.
#[derive(Debug, Clone, PartialEq, Eq)]
pub enum OpenedResource {
    /// The raw bytes (binary mode).
    Bytes(Vec<u8>),
    /// The bytes decoded as UTF-8 (text mode).
    Text(String),
}

/// `kids` lists the immediate children of directory `d` of package `p` (`None`: the package
/// root), sorted, each once.
pub open spec fn is_listing(
    kids: Seq<Seq<char>>,
    idx: Seq<EntryView>,
    p: Seq<char>,
    d: Option<Seq<char>>,
) -> bool {
    &&& strictly_sorted(kids)
    &&& forall|c: Seq<char>| kids.contains(c) <==> is_child(idx, p, d, c)
}

/// A directory has one listing: two listings of the same directory (say, two calls of
/// `contents` on readers of the same package and resources) are equal, order included.
pub proof fn lemma_listing_is_stable(
    a: Seq<Seq<char>>,
    b: Seq<Seq<char>>,
    idx: Seq<EntryView>,
    p: Seq<char>,
    d: Option<Seq<char>>,
)
    requires
        is_listing(a, idx, p, d),
        is_listing(b, idx, p, d),
    ensures
        a == b,
{
    lemma_sorted_unique(a, b);
}

/// Relies on `String::from_utf8`: it succeeds exactly on valid UTF-8 and keeps the text it encodes.
#[verifier::external_body]
fn decode_text(b: &Vec<u8>) -> (r: Option<String>)
    ensures
        r is Some <==> valid_utf8(b@),
        r is Some ==> r->0@ == decode_utf8(b@),
{
    String::from_utf8(b.clone()).ok()
}

/// Whether an open mode asks for bytes rather than text.
fn is_binary_mode(m: &Vec<char>) -> (r: bool)
    ensures
        r == m@.contains('b'),
{
    let mut i: usize = 0;
    while i < m.len()
        invariant
            i <= m.len(),
            !m@.take(i as int).contains('b'),
        decreases m.len() - i,
    {
        if m[i] == 'b' {
            return true;
        }
        assert(m@.take(i + 1) =~= m@.take(i as int).push(m@[i as int]));
        i += 1;
    }
    assert(m@.take(i as int) =~= m@);
    false
}

/// A copy of `b`.
fn copy_bytes(b: &Vec<u8>) -> (r: Vec<u8>)
    ensures
        r@ == b@,
{
    let r = b.clone();
    assert(r@ =~= b@);
    r
}

/// Read-only access to the in-memory resources of one package.
pub struct OxidizedResourceReader {
    index: Arc<ResourceIndex>,
    package: String,
}

impl OxidizedResourceReader {
    /// The resources the reader answers from.
    pub closed spec fn resources(&self) -> Seq<EntryView> {
        self.index@
    }

    /// The package the reader is scoped to.
    pub closed spec fn package(&self) -> Seq<char> {
        self.package@
    }

    pub fn new(index: Arc<ResourceIndex>, package: String) -> (r: Self)
        ensures
            r.resources() == index@,
            r.package() == package@,
    {
        OxidizedResourceReader { index, package }
    }

    /// Another reader over the same shared resources and package.
    pub fn share(&self) -> (r: Self)
        ensures
            r.resources() == self.resources(),
            r.package() == self.package(),
    {
        OxidizedResourceReader { index: Arc::clone(&self.index), package: self.package.clone() }
    }

    /// The bytes of the resource `resource` of this package.
    pub fn open_resource(&self, resource: &str) -> (r: Result<&Vec<u8>, ResourceError>)
        ensures
            match lookup(self.resources(), self.package(), resource@) {
                Some(d) => r is Ok && r->Ok_0@ == d,
                None => r == Err::<&Vec<u8>, ResourceError>(ResourceError::NotFound),
            },
    {
        let name = resource.to_owned();
        match self.index.find(&self.package, &name) {
            Some(d) => Ok(d),
            None => Err(ResourceError::NotFound),
        }
    }

    /// In-memory resources have no filesystem path: this always fails.
    pub fn resource_path(&self, resource: &str) -> (r: Result<String, ResourceError>)
        ensures
            r == Err::<String, ResourceError>(ResourceError::NotFound),
    {
        Err(ResourceError::NotFound)
    }

    /// `Ok(true)` for a resource, `Ok(false)` for a name that is only a directory, and
    /// `NotFound` for a name that is neither.
    pub fn is_resource(&self, name: &str) -> (r: Result<bool, ResourceError>)
        ensures
            has_resource(self.resources(), self.package(), name@) ==> r == Ok::<bool, ResourceError>(true),
            !has_resource(self.resources(), self.package(), name@) && is_directory(self.resources(), self.package(), name@)
                ==> r == Ok::<bool, ResourceError>(false),
            !has_resource(self.resources(), self.package(), name@) && !is_directory(self.resources(), self.package(), name@)
                ==> r == Err::<bool, ResourceError>(ResourceError::NotFound),
    {
        let owned = name.to_owned();
        if self.index.contains(&self.package, &owned) {
            Ok(true)
        } else if self.index.is_directory(&self.package, &chars_of(name)) {
            Ok(false)
        } else {
            Err(ResourceError::NotFound)
        }
    }

    /// The immediate children of directory `dir` of this package, sorted.
    pub fn list_directory(&self, dir: Option<&Vec<char>>) -> (r: Vec<Vec<char>>)
        ensures
            is_listing(cviews(r@), self.resources(), self.package(), dir_view(dir)),
    {
        self.index.list_directory(&self.package, dir)
    }

    /// The names directly in the package: its resources and its subdirectories, sorted.
    pub fn contents(&self) -> (r: Vec<String>)
        ensures
            is_listing(views(r@), self.resources(), self.package(), None),
    {
        let kids = self.list_directory(None);
        let r = strings_of(&kids);
        assert(views(r@) =~= cviews(kids@));
        r
    }

    /// The traversable root of the package.
    pub fn files(&self) -> (r: OxidizedResourceRoot)
        ensures
            r.reader.resources() == self.resources(),
            r.reader.package() == self.package(),
    {
        OxidizedResourceRoot { reader: self.share() }
    }
}

/// The root directory of a package's in-memory resources.
pub struct OxidizedResourceRoot {
    pub reader: OxidizedResourceReader,
}

/// A path below a package's root, segments joined by `/`. Empty segments (doubled, leading or
/// trailing separators) are dropped when the path is looked up or compared.
pub struct OxidizedResourcePath {
    pub reader: OxidizedResourceReader,
    pub path: String,
}

/// Paths below `base` for each child name, in order.
fn paths_below(reader: &OxidizedResourceReader, base: Option<&Vec<char>>, kids: &Vec<Vec<char>>) -> (r: Vec<OxidizedResourcePath>)
    ensures
        r.len() == kids.len(),
        forall|i: int| 0 <= i < r.len() ==> {
            &&& (#[trigger] r[i]).reader.resources() == reader.resources()
            &&& r[i].reader.package() == reader.package()
            &&& r[i].path@ == match base {
                Some(b) => join(b@, kids[i]@),
                None => kids[i]@,
            }
        },
{
    let mut r: Vec<OxidizedResourcePath> = Vec::new();
    let mut i: usize = 0;
    while i < kids.len()
        invariant
            i <= kids.len(),
            r.len() == i,
            forall|j: int| 0 <= j < i ==> {
                &&& (#[trigger] r[j]).reader.resources() == reader.resources()
                &&& r[j].reader.package() == reader.package()
                &&& r[j].path@ == match base {
                    Some(b) => join(b@, kids[j]@),
                    None => kids[j]@,
                }
            },
        decreases kids.len() - i,
    {
        let path = match base {
            Some(b) => string_of(&join_chars(b, &kids[i])),
            None => string_of(&kids[i]),
        };
        r.push(OxidizedResourcePath { reader: reader.share(), path });
        i += 1;
    }
    r
}

impl OxidizedResourceRoot {
    /// The immediate children of the root, as paths, sorted.
    pub fn iterdir(&self) -> (r: Vec<OxidizedResourcePath>)
        ensures
            exists|kids: Seq<Seq<char>>| {
                &&& is_listing(kids, self.reader.resources(), self.reader.package(), None)
                &&& r.len() == kids.len()
                &&& forall|i: int| 0 <= i < r.len() ==> {
                    &&& (#[trigger] r[i]).path@ == kids[i]
                    &&& r[i].reader.resources() == self.reader.resources()
                    &&& r[i].reader.package() == self.reader.package()
                }
            },
    {
        let kids = self.reader.list_directory(None);
        let r = paths_below(&self.reader, None, &kids);
        assert(r.len() == cviews(kids@).len());
        r
    }

    /// The root is a directory.
    pub fn is_dir(&self) -> (r: bool)
        ensures
            r,
    {
        true
    }

    /// The root is never a file.
    pub fn is_file(&self) -> (r: bool)
        ensures
            !r,
    {
        false
    }

    /// The path made of `others`, joined by `/`.
    pub fn joinpath(&self, others: &Vec<String>) -> (r: OxidizedResourcePath)
        ensures
            r.path@ == join_all(views(others@)),
            r.reader.resources() == self.reader.resources(),
            r.reader.package() == self.reader.package(),
    {
        OxidizedResourcePath { reader: self.reader.share(), path: join_strings(others, None) }
    }

    /// The path `other` directly below the root (the `/` operator).
    pub fn truediv(&self, other: &str) -> (r: OxidizedResourcePath)
        ensures
            r.path@ == other@,
            r.reader.resources() == self.reader.resources(),
            r.reader.package() == self.reader.package(),
    {
        OxidizedResourcePath { reader: self.reader.share(), path: other.to_owned() }
    }

    /// The root is not a resource: opening it fails.
    pub fn open(&self, mode: &str) -> (r: Result<OpenedResource, ResourceError>)
        ensures
            r == Err::<OpenedResource, ResourceError>(ResourceError::NotFound),
    {
        Err(ResourceError::NotFound)
    }

    /// The root is not a resource: reading it fails.
    pub fn read_bytes(&self) -> (r: Result<Vec<u8>, ResourceError>)
        ensures
            r == Err::<Vec<u8>, ResourceError>(ResourceError::NotFound),
    {
        Err(ResourceError::NotFound)
    }

    /// The root is not a resource: reading it fails.
    pub fn read_text(&self) -> (r: Result<String, ResourceError>)
        ensures
            r == Err::<String, ResourceError>(ResourceError::NotFound),
    {
        Err(ResourceError::NotFound)
    }

    /// The package name.
    pub fn name(&self) -> (r: String)
        ensures
            r@ == self.reader.package(),
    {
        self.reader.package.clone()
    }

    /// Roots are equal when they belong to the same package.
    pub fn same_as(&self, other: &OxidizedResourceRoot) -> (r: bool)
        ensures
            r == (self.reader.package() == other.reader.package()),
    {
        self.reader.package == other.reader.package
    }
}

/// `base` (if any) and then each of `others`, joined by `/`.
fn join_strings(others: &Vec<String>, base: Option<&String>) -> (r: String)
    ensures
        r@ == match base {
            Some(b) => join_all(seq![b@] + views(others@)),
            None => join_all(views(others@)),
        },
{
    let ghost segs = match base {
        Some(b) => seq![b@] + views(others@),
        None => views(others@),
    };
    let (mut acc, mut i): (Vec<char>, usize) = match base {
        Some(b) => (chars_of(b.as_str()), 0),
        None => {
            if others.len() == 0 {
                assert(segs.len() == 0);
                return String::new();
            }
            (chars_of(others[0].as_str()), 1)
        },
    };
    let ghost off: int = if base is Some { 1 } else { 0 };
    assert(segs.take(i + off) =~= seq![segs[0]]);
    while i < others.len()
        invariant
            1 <= i + off <= segs.len(),
            segs.len() == others.len() + off,
            off == 0 || off == 1,
            forall|j: int| 0 <= j < others.len() ==> segs[j + off] == (#[trigger] others@[j])@,
            acc@ == join_all(segs.take(i + off)),
        decreases others.len() - i,
    {
        acc = join_chars(&acc, &chars_of(others[i].as_str()));
        assert(segs.take(i + off + 1).drop_last() =~= segs.take(i + off));
        i += 1;
    }
    assert(segs.take(i + off) =~= segs);
    string_of(&acc)
}

impl OxidizedResourcePath {
    /// The path without empty segments: what lookups and comparisons go by.
    pub open spec fn key(&self) -> Seq<char> {
        normalized(self.path@)
    }

    /// The characters of `key()`.
    pub fn key_chars(&self) -> (r: Vec<char>)
        ensures
            r@ == self.key(),
    {
        normalize(&chars_of(self.path.as_str()))
    }

    /// The immediate children of this path, as paths, sorted by name.
    pub fn iterdir(&self) -> (r: Vec<OxidizedResourcePath>)
        ensures
            exists|kids: Seq<Seq<char>>| {
                &&& is_listing(kids, self.reader.resources(), self.reader.package(), Some(self.key()))
                &&& r.len() == kids.len()
                &&& forall|i: int| 0 <= i < r.len() ==> {
                    &&& (#[trigger] r[i]).path@ == join(self.key(), kids[i])
                    &&& r[i].reader.resources() == self.reader.resources()
                    &&& r[i].reader.package() == self.reader.package()
                }
            },
    {
        let base = self.key_chars();
        let kids = self.reader.list_directory(Some(&base));
        let r = paths_below(&self.reader, Some(&base), &kids);
        assert(r.len() == cviews(kids@).len());
        r
    }

    /// Some resource lies strictly below this path.
    pub fn is_dir(&self) -> (r: bool)
        ensures
            r == is_directory(self.reader.resources(), self.reader.package(), self.key()),
    {
        self.reader.index.is_directory(&self.reader.package, &self.key_chars())
    }

    /// A resource exists exactly at this path, and nothing lies below it.
    pub fn is_file(&self) -> (r: bool)
        ensures
            r == (has_resource(self.reader.resources(), self.reader.package(), self.key())
                && !is_directory(self.reader.resources(), self.reader.package(), self.key())),
    {
        self.reader.index.contains(&self.reader.package, &string_of(&self.key_chars())) && !self.is_dir()
    }

    /// This path followed by each of `others`, joined by `/`.
    pub fn joinpath(&self, others: &Vec<String>) -> (r: OxidizedResourcePath)
        ensures
            r.path@ == join_all(seq![self.path@] + views(others@)),
            r.reader.resources() == self.reader.resources(),
            r.reader.package() == self.reader.package(),
    {
        OxidizedResourcePath { reader: self.reader.share(), path: join_strings(others, Some(&self.path)) }
    }

    /// This path and `other`, joined by `/` (the `/` operator).
    pub fn truediv(&self, other: &str) -> (r: OxidizedResourcePath)
        ensures
            r.path@ == join(self.path@, other@),
            r.reader.resources() == self.reader.resources(),
            r.reader.package() == self.reader.package(),
    {
        let joined = join_chars(&chars_of(self.path.as_str()), &chars_of(other));
        OxidizedResourcePath { reader: self.reader.share(), path: string_of(&joined) }
    }

    /// Opens the resource at this path: a binary mode (one holding `b`, as `"rb"`) gives its
    /// bytes, a text mode (`"r"`, `"rt"`) decodes them as UTF-8.
    pub fn open(&self, mode: &str) -> (r: Result<OpenedResource, ResourceError>)
        ensures
            match lookup(self.reader.resources(), self.reader.package(), self.key()) {
                None => r == Err::<OpenedResource, ResourceError>(ResourceError::NotFound),
                Some(d) => if !mode@.contains('b') {
                    if valid_utf8(d) {
                        r matches Ok(OpenedResource::Text(t)) && t@ == decode_utf8(d)
                    } else {
                        r == Err::<OpenedResource, ResourceError>(ResourceError::InvalidText)
                    }
                } else {
                    r matches Ok(OpenedResource::Bytes(b)) && b@ == d
                },
            },
    {
        let key = string_of(&self.key_chars());
        let data = self.reader.open_resource(key.as_str())?;
        if !is_binary_mode(&chars_of(mode)) {
            match decode_text(data) {
                Some(t) => Ok(OpenedResource::Text(t)),
                None => Err(ResourceError::InvalidText),
            }
        } else {
            Ok(OpenedResource::Bytes(copy_bytes(data)))
        }
    }

    /// The bytes of the resource at this path.
    pub fn read_bytes(&self) -> (r: Result<Vec<u8>, ResourceError>)
        ensures
            match lookup(self.reader.resources(), self.reader.package(), self.key()) {
                None => r == Err::<Vec<u8>, ResourceError>(ResourceError::NotFound),
                Some(d) => r is Ok && r->Ok_0@ == d,
            },
    {
        let key = string_of(&self.key_chars());
        let data = self.reader.open_resource(key.as_str())?;
        Ok(copy_bytes(data))
    }

    /// The resource at this path, decoded as UTF-8 text.
    pub fn read_text(&self) -> (r: Result<String, ResourceError>)
        ensures
            match lookup(self.reader.resources(), self.reader.package(), self.key()) {
                None => r == Err::<String, ResourceError>(ResourceError::NotFound),
                Some(d) => if valid_utf8(d) {
                    r is Ok && r->Ok_0@ == decode_utf8(d)
                } else {
                    r == Err::<String, ResourceError>(ResourceError::InvalidText)
                },
            },
    {
        let key = string_of(&self.key_chars());
        let data = self.reader.open_resource(key.as_str())?;
        match decode_text(data) {
            Some(t) => Ok(t),
            None => Err(ResourceError::InvalidText),
        }
    }

    /// The last segment of the normalized path.
    pub fn name(&self) -> (r: String)
        ensures
            is_last_segment(r@, self.key()),
    {
        string_of(&last_segment(&self.key_chars()))
    }

    /// Paths are equal when they belong to the same package and their normalized paths agree.
    pub fn same_as(&self, other: &OxidizedResourcePath) -> (r: bool)
        ensures
            r == (self.reader.package() == other.reader.package() && self.key() == other.key()),
    {
        self.reader.package == other.reader.package && chars_equal(&self.key_chars(), &other.key_chars())
    }
}

} // verus!
