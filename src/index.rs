use vstd::prelude::*;

use crate::paths::{dir_view, 
    below, cviews, first_segment_below, insert_sorted, is_below, is_first_segment, is_under,
    lemma_first_segment_unique, rest, under,
};
use crate::text::{chars_of, strictly_sorted};

verus! {

/// One in-memory resource: its package, its package-relative path, its bytes.
pub struct IndexEntry {
    pub package: String,
    pub name: String,
    pub data: Vec<u8>,
}

/// (package, resource path, content) of one entry.
pub type EntryView = (Seq<char>, Seq<char>, Seq<u8>);

impl View for IndexEntry {
    type V = EntryView;

    open spec fn view(&self) -> EntryView {
        (self.package@, self.name@, self.data@)
    }
}

/// The finished in-memory resources, in the order they were added.
///
/// Adding a resource again under the same package and path overrides the earlier content.
pub struct ResourceIndex {
    pub entries: Vec<IndexEntry>,
}

impl View for ResourceIndex {
    type V = Seq<EntryView>;

    open spec fn view(&self) -> Seq<EntryView> {
        self.entries@.map_values(|e: IndexEntry| e@)
    }
}

/// Some entry of `idx` is the resource `n` of package `p`.
pub open spec fn has_resource(idx: Seq<EntryView>, p: Seq<char>, n: Seq<char>) -> bool {
    exists|i: int| 0 <= i < idx.len() && (#[trigger] idx[i]).0 == p && idx[i].1 == n
}

/// The content of resource `n` of package `p`: the latest entry for it wins.
pub open spec fn lookup(idx: Seq<EntryView>, p: Seq<char>, n: Seq<char>) -> Option<Seq<u8>>
    decreases idx.len(),
{
    if idx.len() == 0 {
        None
    } else if idx.last().0 == p && idx.last().1 == n {
        Some(idx.last().2)
    } else {
        lookup(idx.drop_last(), p, n)
    }
}

/// Some resource of package `p` lies strictly below the directory `d`.
pub open spec fn is_directory(idx: Seq<EntryView>, p: Seq<char>, d: Seq<char>) -> bool {
    exists|i: int| 0 <= i < idx.len() && (#[trigger] idx[i]).0 == p && under(d, idx[i].1)
}

/// `c` names an immediate child (resource or directory) of the directory `d` of package `p`,
/// `None` standing for the package root.
pub open spec fn is_child(idx: Seq<EntryView>, p: Seq<char>, d: Option<Seq<char>>, c: Seq<char>) -> bool {
    exists|i: int|
        0 <= i < idx.len() && (#[trigger] idx[i]).0 == p && below(d, idx[i].1)
            && is_first_segment(c, rest(d, idx[i].1))
}

pub proof fn lemma_lookup_has(idx: Seq<EntryView>, p: Seq<char>, n: Seq<char>)
    ensures
        lookup(idx, p, n) is Some <==> has_resource(idx, p, n),
    decreases idx.len(),
{
    if idx.len() > 0 {
        lemma_lookup_has(idx.drop_last(), p, n);
        if has_resource(idx, p, n) && !(idx.last().0 == p && idx.last().1 == n) {
            let i = choose|i: int| 0 <= i < idx.len() && (#[trigger] idx[i]).0 == p && idx[i].1 == n;
            assert(idx.drop_last()[i] == idx[i]);
        }
        if has_resource(idx.drop_last(), p, n) {
            let i = choose|i: int|
                0 <= i < idx.drop_last().len() && (#[trigger] idx.drop_last()[i]).0 == p
                    && idx.drop_last()[i].1 == n;
            assert(idx[i] == idx.drop_last()[i]);
        }
        if idx.last().0 == p && idx.last().1 == n {
            assert(idx[idx.len() - 1] == idx.last());
        }
    }
}

/// A path with a resource strictly below it is a directory; so it is no file, whether or not a
/// resource also exists exactly at it.
pub proof fn lemma_below_makes_directory(idx: Seq<EntryView>, p: Seq<char>, d: Seq<char>, i: int)
    requires
        0 <= i < idx.len(),
        idx[i].0 == p,
        under(d, idx[i].1),
    ensures
        is_directory(idx, p, d),
        !(has_resource(idx, p, d) && !is_directory(idx, p, d)),
{
}

/// The first segment of every resource of a package is listed among the package's contents,
/// whether it names the resource itself or a subdirectory.
pub proof fn lemma_first_segment_listed(idx: Seq<EntryView>, p: Seq<char>, i: int, c: Seq<char>)
    requires
        0 <= i < idx.len(),
        idx[i].0 == p,
        is_first_segment(c, idx[i].1),
    ensures
        is_child(idx, p, None, c),
{
    assert(rest(None, idx[i].1) == idx[i].1);
}

impl ResourceIndex {
    /// An index without resources.
    pub fn new() -> (r: Self)
        ensures
            r@ == Seq::<EntryView>::empty(),
    {
        let r = ResourceIndex { entries: Vec::new() };
        assert(r@ =~= Seq::<EntryView>::empty());
        r
    }

    /// Records `data` as resource `name` of `package`.
    pub fn add_resource(&mut self, package: String, name: String, data: Vec<u8>)
        ensures
            final(self)@ == old(self)@.push((package@, name@, data@)),
    {
        let e = IndexEntry { package, name, data };
        self.entries.push(e);
        assert(final(self)@ =~= old(self)@.push(e@));
    }

    /// The content of resource `name` of `package`.
    pub fn find(&self, package: &String, name: &String) -> (r: Option<&Vec<u8>>)
        ensures
            match lookup(self@, package@, name@) {
                Some(d) => r is Some && r->0@ == d,
                None => r is None,
            },
    {
        let mut i: usize = self.entries.len();
        assert(self@.take(i as int) =~= self@);
        while i > 0
            invariant
                i <= self.entries.len(),
                lookup(self@, package@, name@) == lookup(self@.take(i as int), package@, name@),
            decreases i,
        {
            let e = &self.entries[i - 1];
            assert(self@.take(i as int).last() == e@);
            assert(self@.take(i as int).drop_last() =~= self@.take(i - 1));
            if e.package == *package && e.name == *name {
                return Some(&e.data);
            }
            i -= 1;
        }
        None
    }

    /// Whether `package` has the resource `name`.
    pub fn contains(&self, package: &String, name: &String) -> (r: bool)
        ensures
            r == has_resource(self@, package@, name@),
    {
        proof {
            lemma_lookup_has(self@, package@, name@);
        }
        self.find(package, name).is_some()
    }

    /// Whether some resource of `package` lies strictly below `dir`.
    pub fn is_directory(&self, package: &String, dir: &Vec<char>) -> (r: bool)
        ensures
            r == is_directory(self@, package@, dir@),
    {
        let mut i: usize = 0;
        while i < self.entries.len()
            invariant
                i <= self.entries.len(),
                !is_directory(self@.take(i as int), package@, dir@),
            decreases self.entries.len() - i,
        {
            let e = &self.entries[i];
            assert(self@[i as int] == e@);
            if e.package == *package && is_under(dir, &chars_of(e.name.as_str())) {
                assert(self@[i as int].0 == package@ && under(dir@, self@[i as int].1));
                return true;
            }
            assert forall|j: int|
                0 <= j < i + 1 && (#[trigger] self@.take(i + 1)[j]).0 == package@ implies !under(
                dir@,
                self@.take(i + 1)[j].1,
            ) by {
                if j < i {
                    assert(self@.take(i as int)[j] == self@.take(i + 1)[j]);
                }
            }
            i += 1;
        }
        assert(self@.take(i as int) =~= self@);
        false
    }

    /// The immediate children of `dir` in `package`, each once, in lexicographic order.
    pub fn list_directory(&self, package: &String, dir: Option<&Vec<char>>) -> (r: Vec<Vec<char>>)
        ensures
            strictly_sorted(cviews(r@)),
            forall|c: Seq<char>|
                cviews(r@).contains(c) <==> is_child(self@, package@, dir_view(dir), c),
    {
        let ghost dv = dir_view(dir);
        let mut r: Vec<Vec<char>> = Vec::new();
        let mut i: usize = 0;
        while i < self.entries.len()
            invariant
                i <= self.entries.len(),
                dv == dir_view(dir),
                strictly_sorted(cviews(r@)),
                forall|c: Seq<char>|
                    cviews(r@).contains(c) <==> is_child(self@.take(i as int), package@, dv, c),
            decreases self.entries.len() - i,
        {
            let e = &self.entries[i];
            let ghost ev = self@[i as int];
            assert(ev == e@);
            let name = chars_of(e.name.as_str());
            let ghost prefix = self@.take(i as int);
            let ghost next = self@.take(i + 1);
            assert(next =~= prefix.push(ev));
            if e.package == *package && is_below(dir, &name) {
                let c = first_segment_below(dir, &name);
                let ghost cv = c@;
                insert_sorted(&mut r, c);
                assert forall|x: Seq<char>|
                    cviews(r@).contains(x) <==> is_child(next, package@, dv, x) by {
                    if is_child(next, package@, dv, x) {
                        let j = choose|j: int|
                            0 <= j < next.len() && (#[trigger] next[j]).0 == package@ && below(
                                dv,
                                next[j].1,
                            ) && is_first_segment(x, rest(dv, next[j].1));
                        if j < i {
                            assert(prefix[j] == next[j]);
                        } else {
                            lemma_first_segment_unique(x, cv, rest(dv, ev.1));
                        }
                    }
                    if is_child(prefix, package@, dv, x) {
                        let j = choose|j: int|
                            0 <= j < prefix.len() && (#[trigger] prefix[j]).0 == package@ && below(
                                dv,
                                prefix[j].1,
                            ) && is_first_segment(x, rest(dv, prefix[j].1));
                        assert(next[j] == prefix[j]);
                    }
                    if x == cv {
                        assert(next[i as int] == ev);
                    }
                }
            } else {
                assert forall|x: Seq<char>|
                    is_child(next, package@, dv, x) <==> is_child(prefix, package@, dv, x) by {
                    if is_child(next, package@, dv, x) {
                        let j = choose|j: int|
                            0 <= j < next.len() && (#[trigger] next[j]).0 == package@ && below(
                                dv,
                                next[j].1,
                            ) && is_first_segment(x, rest(dv, next[j].1));
                        assert(prefix[j] == next[j]);
                    }
                    if is_child(prefix, package@, dv, x) {
                        let j = choose|j: int|
                            0 <= j < prefix.len() && (#[trigger] prefix[j]).0 == package@ && below(
                                dv,
                                prefix[j].1,
                            ) && is_first_segment(x, rest(dv, prefix[j].1));
                        assert(next[j] == prefix[j]);
                    }
                }
            }
            i += 1;
        }
        assert(self@.take(i as int) =~= self@);
        r
    }
}

} // verus!
