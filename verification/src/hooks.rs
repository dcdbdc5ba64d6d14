//! The field-level transforms built on the trim primitive: one each for
//! ordered sequences of text, optional text, and unique collections of
//! text. Each takes the value a deserialization framework decoded for a
//! field and returns the normalized value to store.

use crate::trim::{string_trim, trim_spec};
use vstd::prelude::*;

verus! {

/// Trims every element of an ordered sequence of text values, preserving
/// order and count: duplicates stay and nothing is reordered.
pub fn vec_string_trim(v: Vec<String>) -> (r: Vec<String>)
    ensures
        r@.len() == v@.len(),
        forall|i: int| 0 <= i < v@.len() ==> r@[i]@ == trim_spec(v@[i]@),
{
    let mut r: Vec<String> = Vec::new();
    let mut j: usize = 0;
    while j < v.len()
        invariant
            j <= v@.len(),
            r@.len() == j,
            forall|i: int| 0 <= i < j ==> r@[i]@ == trim_spec(v@[i]@),
        decreases v@.len() - j,
    {
        let t = string_trim(v[j].as_str());
        r.push(t);
        j = j + 1;
    }
    r
}

/// What the optional-text transform returns: an absent input stays absent,
/// a present value whose trimmed form is empty becomes absent, and any
/// other present value stays present with its trimmed form.
pub open spec fn option_trim_result(o: Option<String>, r: Option<String>) -> bool {
    match o {
        Option::None => r is None,
        Option::Some(s) => if trim_spec(s@).len() == 0 {
            r is None
        } else {
            r matches Some(t) && t@ == trim_spec(s@)
        },
    }
}

/// Trims an optional text value, collapsing a value that is nothing but
/// whitespace to an absent value. An absent input passes through untouched.
pub fn option_string_trim(o: Option<String>) -> (r: Option<String>)
    ensures
        option_trim_result(o, r),
        o is None ==> r is None,
{
    match o {
        Option::None => Option::None,
        Option::Some(s) => {
            let t = string_trim(s.as_str());
            if t.as_str().is_empty() {
                Option::None
            } else {
                Option::Some(t)
            }
        },
    }
}

/// The character sequences of the elements of `r`, in order.
pub open spec fn views_of(r: Seq<String>) -> Seq<Seq<char>> {
    r.map_values(|s: String| s@)
}

/// The trimmed character sequences of the elements of `v`, in order.
pub open spec fn trimmed_views_of(v: Seq<String>) -> Seq<Seq<char>> {
    v.map_values(|s: String| trim_spec(s@))
}

/// Whether every element of `u` occurs somewhere in `w`.
pub open spec fn within(u: Seq<Seq<char>>, w: Seq<Seq<char>>) -> bool {
    forall|i: int| 0 <= i < u.len() ==> w.contains(#[trigger] u[i])
}

/// Whether `r` holds, each exactly once, the trimmed forms of the elements
/// of `v`: no two elements of `r` are equal, every element of `r` is the
/// trimmed form of some element of `v`, and the trimmed form of every
/// element of `v` appears in `r`.
pub open spec fn dedup_trim_result(v: Seq<String>, r: Seq<String>) -> bool {
    &&& views_of(r).no_duplicates()
    &&& within(views_of(r), trimmed_views_of(v))
    &&& within(trimmed_views_of(v), views_of(r))
}

/// One round of deduplicating insertion keeps the accumulated views
/// distinct and in step with the first `j + 1` target views.
proof fn lemma_dedup_step(
    w: Seq<Seq<char>>,
    prev: Seq<Seq<char>>,
    cur: Seq<Seq<char>>,
    t: Seq<char>,
    j: int,
    found: bool,
)
    requires
        0 <= j < w.len(),
        t == w[j],
        found == prev.contains(t),
        cur == (if found {
            prev
        } else {
            prev.push(t)
        }),
        prev.len() <= j,
        prev.no_duplicates(),
        within(prev, w.take(j)),
        within(w.take(j), prev),
    ensures
        cur.len() <= j + 1,
        cur.no_duplicates(),
        within(cur, w.take(j + 1)),
        within(w.take(j + 1), cur),
{
    assert forall|i1: int, i2: int|
        0 <= i1 < cur.len() && 0 <= i2 < cur.len() && i1 != i2 implies cur[i1] != cur[i2] by {
        if i1 < prev.len() && i2 < prev.len() {
        } else if i2 == prev.len() {
            assert(cur[i1] == prev[i1]);
        } else {
            assert(cur[i2] == prev[i2]);
        }
    }
    assert forall|i: int| 0 <= i < cur.len() implies w.take(j + 1).contains(#[trigger] cur[i]) by {
        if i < prev.len() {
            assert(w.take(j).contains(prev[i]));
            let k0 = choose|k: int| 0 <= k < w.take(j).len() && w.take(j)[k] == prev[i];
            assert(w.take(j + 1)[k0] == cur[i]);
        } else {
            assert(w.take(j + 1)[j] == cur[i]);
        }
    }
    assert forall|k: int|
        0 <= k < w.take(j + 1).len() implies cur.contains(#[trigger] w.take(j + 1)[k]) by {
        if k < j {
            assert(w.take(j)[k] == w.take(j + 1)[k]);
            assert(prev.contains(w.take(j)[k]));
            let i0 = choose|i: int| 0 <= i < prev.len() && prev[i] == w.take(j)[k];
            assert(cur[i0] == w.take(j + 1)[k]);
        } else if found {
            let i0 = choose|i: int| 0 <= i < prev.len() && prev[i] == t;
            assert(cur[i0] == w.take(j + 1)[k]);
        } else {
            assert(cur[prev.len() as int] == w.take(j + 1)[k]);
        }
    }
}

/// Whether `r` already holds a string whose characters are `t`.
fn contains_string(r: &Vec<String>, t: &String) -> (found: bool)
    ensures
        found == views_of(r@).contains(t@),
{
    let mut i: usize = 0;
    while i < r.len()
        invariant
            i <= r@.len(),
            forall|k: int| 0 <= k < i ==> views_of(r@)[k] != t@,
        decreases r@.len() - i,
    {
        if r[i] == *t {
            assert(views_of(r@)[i as int] == t@);
            return true;
        }
        i = i + 1;
    }
    false
}

/// Trims every element of a collection of text values and enforces
/// uniqueness afterwards: elements that become equal after trimming
/// collapse to one representative, so the result never has more elements
/// than the input had.
pub fn btreeset_string_trim(v: Vec<String>) -> (r: Vec<String>)
    ensures
        r@.len() <= v@.len(),
        dedup_trim_result(v@, r@),
{
    let ghost w = trimmed_views_of(v@);
    let mut r: Vec<String> = Vec::new();
    let mut j: usize = 0;
    while j < v.len()
        invariant
            j <= v@.len(),
            w == trimmed_views_of(v@),
            w.len() == v@.len(),
            r@.len() <= j,
            views_of(r@).no_duplicates(),
            within(views_of(r@), w.take(j as int)),
            within(w.take(j as int), views_of(r@)),
        decreases v@.len() - j,
    {
        let t = string_trim(v[j].as_str());
        let ghost prev = views_of(r@);
        let ghost tv = t@;
        let found = contains_string(&r, &t);
        if !found {
            r.push(t);
        }
        proof {
            assert(tv == w[j as int]);
            if !found {
                assert(views_of(r@) =~= prev.push(tv));
            }
            lemma_dedup_step(w, prev, views_of(r@), tv, j as int, found);
        }
        j = j + 1;
    }
    proof {
        assert(w.take(v@.len() as int) =~= w);
    }
    r
}

} // verus!
