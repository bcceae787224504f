use vstd::prelude::*;

use crate::text::{chars_equal, lex_less, lex_lt, lemma_lex_transitive, lemma_lex_trichotomy};

verus! {

/// Separator between the segments of a package-relative resource path.
pub const SEPARATOR: char = '/';

/// `r` lies strictly below the directory `dir`: it starts with `dir` and a separator.
pub open spec fn under(dir: Seq<char>, r: Seq<char>) -> bool {
    &&& dir.len() < r.len()
    &&& r.take(dir.len() as int) == dir
    &&& r[dir.len() as int] == '/'
}

/// `r` lies below `dir`, where `None` stands for the package root, below which every resource lies.
pub open spec fn below(dir: Option<Seq<char>>, r: Seq<char>) -> bool {
    match dir {
        None => true,
        Some(d) => under(d, r),
    }
}

/// The view of an optional directory.
pub open spec fn dir_view(dir: Option<&Vec<char>>) -> Option<Seq<char>> {
    match dir {
        None => None,
        Some(d) => Some(d@),
    }
}

/// What remains of `r` once the directory `dir` and its separator are taken off.
pub open spec fn rest(dir: Option<Seq<char>>, r: Seq<char>) -> Seq<char> {
    match dir {
        None => r,
        Some(d) => r.skip(d.len() + 1int),
    }
}

/// `c` is the first segment of `s`: everything before the first separator.
pub open spec fn is_first_segment(c: Seq<char>, s: Seq<char>) -> bool {
    &&& c.len() <= s.len()
    &&& s.take(c.len() as int) == c
    &&& !c.contains('/')
    &&& (c.len() == s.len() || s[c.len() as int] == '/')
}

/// `c` is the last segment of `s`: everything after the last separator.
pub open spec fn is_last_segment(c: Seq<char>, s: Seq<char>) -> bool {
    &&& c.len() <= s.len()
    &&& s.skip(s.len() - c.len()) == c
    &&& !c.contains('/')
    &&& (c.len() == s.len() || s[s.len() - c.len() - 1] == '/')
}

/// `p` without empty segments: each run of separators becomes one, and leading and trailing
/// separators go.
pub open spec fn normalized(p: Seq<char>) -> Seq<char>
    decreases p.len(),
{
    if p.len() == 0 {
        Seq::empty()
    } else {
        let s = normalized(p.drop_last());
        if p.last() == '/' {
            s
        } else if p.len() >= 2 && p[p.len() - 2] == '/' && s.len() > 0 {
            s.push('/').push(p.last())
        } else {
            s.push(p.last())
        }
    }
}

/// `a` and `b` joined by one separator.
pub open spec fn join(a: Seq<char>, b: Seq<char>) -> Seq<char> {
    a + seq!['/'] + b
}

/// The segments joined by separators, in order.
pub open spec fn join_all(segs: Seq<Seq<char>>) -> Seq<char>
    decreases segs.len(),
{
    if segs.len() == 0 {
        Seq::empty()
    } else if segs.len() == 1 {
        segs[0]
    } else {
        join(join_all(segs.drop_last()), segs.last())
    }
}

/// Views of a sequence of character vectors.
pub open spec fn cviews(v: Seq<Vec<char>>) -> Seq<Seq<char>> {
    v.map_values(|c: Vec<char>| c@)
}

pub proof fn lemma_first_segment_unique(c1: Seq<char>, c2: Seq<char>, s: Seq<char>)
    requires
        is_first_segment(c1, s),
        is_first_segment(c2, s),
    ensures
        c1 == c2,
{
    if c1.len() < c2.len() {
        assert(c2[c1.len() as int] == s[c1.len() as int]);
        assert(c2.contains('/'));
    } else if c2.len() < c1.len() {
        assert(c1[c2.len() as int] == s[c2.len() as int]);
        assert(c1.contains('/'));
    }
}

/// Decides `under(dir, r)`.
pub fn is_under(dir: &Vec<char>, r: &Vec<char>) -> (b: bool)
    ensures
        b == under(dir@, r@),
{
    if dir.len() >= r.len() {
        return false;
    }
    let mut i: usize = 0;
    while i < dir.len()
        invariant
            i <= dir.len() < r.len(),
            r@.take(i as int) == dir@.take(i as int),
        decreases dir.len() - i,
    {
        if dir[i] != r[i] {
            assert(r@.take(dir.len() as int)[i as int] != dir@[i as int]);
            return false;
        }
        assert(r@.take(i as int + 1) =~= r@.take(i as int).push(r@[i as int]));
        assert(dir@.take(i as int + 1) =~= dir@.take(i as int).push(dir@[i as int]));
        i += 1;
    }
    assert(dir@.take(i as int) =~= dir@);
    r[dir.len()] == SEPARATOR
}

/// Decides `below(dir, r)`.
pub fn is_below(dir: Option<&Vec<char>>, r: &Vec<char>) -> (b: bool)
    ensures
        b == below(dir_view(dir), r@),
{
    match dir {
        None => true,
        Some(d) => is_under(d, r),
    }
}

/// The first segment of what lies below `dir` in `r`.
pub fn first_segment_below(dir: Option<&Vec<char>>, r: &Vec<char>) -> (c: Vec<char>)
    requires
        below(dir_view(dir), r@),
    ensures
        is_first_segment(c@, rest(dir_view(dir), r@)),
{
    let start: usize = match dir {
        None => 0,
        Some(d) => {
            assert(d.len() < r.len());
            d.len() + 1
        },
    };
    let ghost s = rest(dir_view(dir), r@);
    assert(s =~= r@.skip(start as int));
    let mut c: Vec<char> = Vec::new();
    let mut i: usize = start;
    while i < r.len() && r[i] != SEPARATOR
        invariant
            start <= i <= r.len(),
            s == r@.skip(start as int),
            c@ == s.take(i - start),
            !c@.contains('/'),
        decreases r.len() - i,
    {
        c.push(r[i]);
        i += 1;
        assert(c@ =~= s.take(i - start));
    }
    c
}

/// The last segment of `s`.
pub fn last_segment(s: &Vec<char>) -> (c: Vec<char>)
    ensures
        is_last_segment(c@, s@),
{
    let mut start: usize = s.len();
    while start > 0 && s[start - 1] != SEPARATOR
        invariant
            start <= s.len(),
            !s@.skip(start as int).contains('/'),
        decreases start,
    {
        assert(s@.skip(start - 1) =~= seq![s@[start - 1]] + s@.skip(start as int));
        start -= 1;
    }
    let mut c: Vec<char> = Vec::new();
    let mut i: usize = start;
    while i < s.len()
        invariant
            start <= i <= s.len(),
            c@ == s@.subrange(start as int, i as int),
        decreases s.len() - i,
    {
        c.push(s[i]);
        i += 1;
        assert(c@ =~= s@.subrange(start as int, i as int));
    }
    assert(c@ =~= s@.skip(start as int));
    c
}

/// Computes `normalized(p)`.
pub fn normalize(p: &Vec<char>) -> (r: Vec<char>)
    ensures
        r@ == normalized(p@),
{
    let mut r: Vec<char> = Vec::new();
    let mut i: usize = 0;
    assert(p@.take(0) =~= Seq::<char>::empty());
    while i < p.len()
        invariant
            i <= p.len(),
            r@ == normalized(p@.take(i as int)),
        decreases p.len() - i,
    {
        let ghost t = p@.take(i + 1);
        assert(t.drop_last() =~= p@.take(i as int));
        assert(t.last() == p@[i as int]);
        if p[i] != SEPARATOR {
            if i >= 1 && p[i - 1] == SEPARATOR && r.len() > 0 {
                assert(t[t.len() - 2] == p@[i - 1]);
                r.push(SEPARATOR);
            } else if i >= 1 {
                assert(t[t.len() - 2] == p@[i - 1]);
            }
            r.push(p[i]);
        }
        i += 1;
    }
    assert(p@.take(i as int) =~= p@);
    r
}

/// `a`, a separator, then `b`.
pub fn join_chars(a: &Vec<char>, b: &Vec<char>) -> (r: Vec<char>)
    ensures
        r@ == join(a@, b@),
{
    let mut r: Vec<char> = Vec::new();
    let mut i: usize = 0;
    while i < a.len()
        invariant
            i <= a.len(),
            r@ == a@.take(i as int),
        decreases a.len() - i,
    {
        r.push(a[i]);
        i += 1;
        assert(r@ =~= a@.take(i as int));
    }
    assert(a@.take(i as int) =~= a@);
    r.push(SEPARATOR);
    let mut j: usize = 0;
    while j < b.len()
        invariant
            j <= b.len(),
            r@ == a@ + seq!['/'] + b@.take(j as int),
        decreases b.len() - j,
    {
        r.push(b[j]);
        j += 1;
        assert(r@ =~= a@ + seq!['/'] + b@.take(j as int));
    }
    assert(b@.take(j as int) =~= b@);
    r
}

/// Puts `c` into a strictly sorted vector, unless it is there already.
pub fn insert_sorted(v: &mut Vec<Vec<char>>, c: Vec<char>)
    requires
        crate::text::strictly_sorted(cviews(old(v)@)),
    ensures
        crate::text::strictly_sorted(cviews(final(v)@)),
        forall|x: Seq<char>|
            cviews(final(v)@).contains(x) <==> (cviews(old(v)@).contains(x) || x == c@),
{
    let ghost old_v = cviews(v@);
    let mut k: usize = 0;
    while k < v.len() && lex_less(&v[k], &c)
        invariant
            k <= v.len(),
            cviews(v@) == old_v,
            forall|j: int| 0 <= j < k ==> lex_lt(#[trigger] old_v[j], c@),
        decreases v.len() - k,
    {
        k += 1;
    }
    if k < v.len() && chars_equal(&v[k], &c) {
        assert(old_v[k as int] == c@);
        return;
    }
    let ghost cv = c@;
    v.insert(k, c);
    let ghost new_v = cviews(v@);
    assert(new_v =~= old_v.insert(k as int, cv));
    proof {
        if k < old_v.len() {
            lemma_lex_trichotomy(old_v[k as int], cv);
        }
        assert forall|i: int, j: int| 0 <= i < j < new_v.len() implies lex_lt(
            #[trigger] new_v[i],
            #[trigger] new_v[j],
        ) by {
            if j < k {
            } else if j == k {
            } else if i < k {
            } else if i == k {
                if j - 1 > k {
                    lemma_lex_transitive(cv, old_v[k as int], old_v[j - 1]);
                }
            } else {
            }
        }
        assert forall|x: Seq<char>| new_v.contains(x) <==> (old_v.contains(x) || x == cv) by {
            if new_v.contains(x) {
                let i = choose|i: int| 0 <= i < new_v.len() && new_v[i] == x;
                if i < k {
                    assert(old_v[i] == x);
                } else if i > k {
                    assert(old_v[i - 1] == x);
                }
            }
            if old_v.contains(x) {
                let i = choose|i: int| 0 <= i < old_v.len() && old_v[i] == x;
                if i < k {
                    assert(new_v[i] == x);
                } else {
                    assert(new_v[i + 1] == x);
                }
            }
            if x == cv {
                assert(new_v[k as int] == x);
            }
        }
    }
}

/// Joining one more segment onto joined segments is dividing by it: `joinpath(s..., x)` names
/// the same path as `joinpath(s...) / x`.
pub proof fn lemma_joinpath_then_divide(segs: Seq<Seq<char>>, x: Seq<char>)
    requires
        segs.len() >= 1,
    ensures
        join_all(segs.push(x)) == join(join_all(segs), x),
{
    assert(segs.push(x).drop_last() =~= segs);
}

/// From the root, `joinpath(a, b)` names the same path as `root / a / b`.
pub proof fn lemma_root_joinpath_is_division(a: Seq<char>, b: Seq<char>)
    ensures
        join_all(seq![a, b]) == join(a, b),
{
    lemma_joinpath_then_divide(seq![a], b);
    assert(seq![a].push(b) =~= seq![a, b]);
}

/// Below a path `p`, `p.joinpath(a, b)` names the same path as `p / a / b`.
pub proof fn lemma_path_joinpath_is_division(p: Seq<char>, a: Seq<char>, b: Seq<char>)
    ensures
        join_all(seq![p] + seq![a, b]) == join(join(p, a), b),
{
    lemma_joinpath_then_divide(seq![p], a);
    lemma_joinpath_then_divide(seq![p, a], b);
    assert(seq![p].push(a) =~= seq![p, a]);
    assert(seq![p, a].push(b) =~= seq![p] + seq![a, b]);
}

} // verus!
