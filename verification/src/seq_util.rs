//! Sequences without repeated elements: taking one element out, and moving
//! one to the front.

use vstd::prelude::*;

verus! {

/// `s` with the element `v` taken out, where it occurs.
pub open spec fn without(s: Seq<usize>, v: usize) -> Seq<usize> {
    if s.contains(v) {
        s.remove(s.index_of(v))
    } else {
        s
    }
}

/// `s` with the element `v` moved to the front, or put there if it was absent.
pub open spec fn moved_to_front(s: Seq<usize>, v: usize) -> Seq<usize> {
    without(s, v).insert(0, v)
}

/// In a sequence without repeats, an element is found at its own position.
pub proof fn lemma_index_of_unique(s: Seq<usize>, i: int)
    requires
        s.no_duplicates(),
        0 <= i < s.len(),
    ensures
        s.index_of(s[i]) == i,
        s.contains(s[i]),
{
    let j = s.index_of(s[i]);
    assert(0 <= j < s.len() && s[j] == s[i]);
}

/// Taking `v` out of a sequence without repeats leaves exactly the other
/// elements, still without repeats and in their order.
pub proof fn lemma_without(s: Seq<usize>, v: usize)
    requires
        s.no_duplicates(),
    ensures
        without(s, v).no_duplicates(),
        !without(s, v).contains(v),
        forall|u: usize| #[trigger] without(s, v).contains(u) <==> s.contains(u) && u != v,
        s.contains(v) ==> without(s, v).len() == s.len() - 1,
        !s.contains(v) ==> without(s, v) == s,
{
    if s.contains(v) {
        let k = s.index_of(v);
        let r = s.remove(k);
        assert(0 <= k < s.len() && s[k] == v);
        assert forall|i: int, j: int| 0 <= i < r.len() && 0 <= j < r.len() && i != j implies r[i]
            != r[j] by {
            let ii = if i < k { i } else { i + 1 };
            let jj = if j < k { j } else { j + 1 };
            assert(r[i] == s[ii] && r[j] == s[jj]);
        }
        assert forall|u: usize| #[trigger] r.contains(u) <==> s.contains(u) && u != v by {
            if r.contains(u) {
                let i = choose|i: int| 0 <= i < r.len() && r[i] == u;
                let ii = if i < k { i } else { i + 1 };
                assert(s[ii] == u);
            }
            if s.contains(u) && u != v {
                let i = choose|i: int| 0 <= i < s.len() && s[i] == u;
                let ii = if i < k { i } else { i - 1 };
                assert(r[ii] == u);
            }
        }
    }
}

/// Where an element stands once another has been taken out: one place
/// further to the front if the other stood before it, else where it stood.
pub proof fn lemma_without_index(s: Seq<usize>, v: usize, k: int)
    requires
        s.no_duplicates(),
        0 <= k < s.len(),
        s[k] != v,
    ensures
        without(s, v).contains(s[k]),
        without(s, v).index_of(s[k]) == (if s.contains(v) && s.index_of(v) < k {
            k - 1
        } else {
            k
        }),
        0 <= without(s, v).index_of(s[k]) < without(s, v).len(),
{
    lemma_without(s, v);
    let r = without(s, v);
    let at = if s.contains(v) && s.index_of(v) < k {
        k - 1
    } else {
        k
    };
    if s.contains(v) {
        let j = s.index_of(v);
        assert(0 <= j < s.len() && s[j] == v);
    }
    assert(r[at] == s[k]);
    lemma_index_of_unique(r, at);
}

/// Putting an absent element into a sequence without repeats keeps it so,
/// and adds that element and no other.
pub proof fn lemma_insert(s: Seq<usize>, i: int, v: usize)
    requires
        s.no_duplicates(),
        !s.contains(v),
        0 <= i <= s.len(),
    ensures
        s.insert(i, v).no_duplicates(),
        s.insert(i, v)[i] == v,
        s.insert(i, v).index_of(v) == i,
        forall|u: usize| #[trigger] s.insert(i, v).contains(u) <==> s.contains(u) || u == v,
        without(s.insert(i, v), v) == s,
{
    let r = s.insert(i, v);
    assert forall|a: int, b: int| 0 <= a < r.len() && 0 <= b < r.len() && a != b implies r[a]
        != r[b] by {
        let aa = if a < i { a } else { a - 1 };
        let bb = if b < i { b } else { b - 1 };
        if a != i && b != i {
            assert(r[a] == s[aa] && r[b] == s[bb]);
        } else if a == i {
            assert(r[b] == s[bb]);
        } else {
            assert(r[a] == s[aa]);
        }
    }
    assert forall|u: usize| #[trigger] r.contains(u) <==> s.contains(u) || u == v by {
        if r.contains(u) {
            let a = choose|a: int| 0 <= a < r.len() && r[a] == u;
            if a != i {
                let aa = if a < i { a } else { a - 1 };
                assert(s[aa] == u);
            }
        }
        if s.contains(u) {
            let a = choose|a: int| 0 <= a < s.len() && s[a] == u;
            let aa = if a < i { a } else { a + 1 };
            assert(r[aa] == u);
        }
        assert(r[i] == v);
    }
    lemma_index_of_unique(r, i);
    assert(r.remove(i) =~= s);
}

/// Position of an element in a vector that holds it once.
pub fn position_of(v: &Vec<usize>, x: usize) -> (i: usize)
    requires
        v@.no_duplicates(),
        v@.contains(x),
    ensures
        i == v@.index_of(x),
        i < v@.len(),
        v@[i as int] == x,
{
    let mut i: usize = 0;
    while i < v.len()
        invariant
            v@.no_duplicates(),
            v@.contains(x),
            i <= v@.len(),
            forall|j: int| 0 <= j < i ==> v@[j] != x,
        decreases v@.len() - i,
    {
        if v[i] == x {
            proof {
                lemma_index_of_unique(v@, i as int);
            }
            return i;
        }
        i += 1;
    }
    proof {
        let k = v@.index_of(x);
        assert(0 <= k < v@.len() && v@[k] == x);
    }
    0
}

/// Taking an element out and putting it back where it stood changes nothing.
pub proof fn lemma_without_insert_back(s: Seq<usize>, i: int)
    requires
        s.no_duplicates(),
        0 <= i < s.len(),
    ensures
        without(s, s[i]).insert(i, s[i]) == s,
{
    lemma_index_of_unique(s, i);
    assert(s.remove(i).insert(i, s[i]) =~= s);
}

/// A sequence without repeats whose elements all lie below `n` has at
/// most `n` elements.
pub proof fn lemma_bounded_len(s: Seq<usize>, n: nat)
    requires
        s.no_duplicates(),
        forall|i: int| 0 <= i < s.len() ==> (#[trigger] s[i]) < n,
    ensures
        s.len() <= n,
    decreases n,
{
    if n == 0 {
        if s.len() > 0 {
            assert(s[0] < n);
        }
    } else {
        let v = (n - 1) as usize;
        let r = without(s, v);
        lemma_without(s, v);
        assert forall|i: int| 0 <= i < r.len() implies (#[trigger] r[i]) < n - 1 by {
            assert(r.contains(r[i]));
            let j = choose|j: int| 0 <= j < s.len() && s[j] == r[i];
            assert(s[j] < n);
        }
        lemma_bounded_len(r, (n - 1) as nat);
    }
}

/// Appending is inserting at the end.
pub proof fn lemma_push_is_insert(s: Seq<usize>, v: usize)
    ensures
        s.push(v) == s.insert(s.len() as int, v),
{
    assert(s.push(v) =~= s.insert(s.len() as int, v));
}

} // verus!
