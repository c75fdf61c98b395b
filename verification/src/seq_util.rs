//! Swap-with-last removal on sequences.
//!
//! Both enumeration structures remove an element by moving the last
//! element into the vacated slot and shrinking by one. This module gives
//! that operation a specification-level definition and proves the facts
//! the ledger invariant needs: length, element placement, duplicate
//! freedom and membership.

use vstd::prelude::*;

verus! {

/// The sequence after removing the element at `i` by swap-with-last:
/// the last element moves into slot `i` and the length shrinks by one.
/// When `i` is already the last position this is a plain shrink.
pub open spec fn swap_remove_seq<A>(s: Seq<A>, i: int) -> Seq<A>
    recommends
        0 <= i < s.len(),
{
    s.update(i, s.last()).drop_last()
}

/// Where every element of `swap_remove_seq(s, i)` comes from: slot `i`
/// holds the old last element (when slot `i` survives), every other
/// slot is untouched.
pub proof fn lemma_swap_remove_points<A>(s: Seq<A>, i: int)
    requires
        0 <= i < s.len(),
    ensures
        swap_remove_seq(s, i).len() == s.len() - 1,
        forall|j: int|
            0 <= j < s.len() - 1 ==> #[trigger] swap_remove_seq(s, i)[j] == (if j == i {
                s[s.len() - 1]
            } else {
                s[j]
            }),
{
}

/// On a duplicate-free sequence, swap-with-last removal keeps the
/// sequence duplicate-free and removes exactly the element at `i`.
pub proof fn lemma_swap_remove_no_dup<A>(s: Seq<A>, i: int)
    requires
        0 <= i < s.len(),
        s.no_duplicates(),
    ensures
        swap_remove_seq(s, i).len() == s.len() - 1,
        swap_remove_seq(s, i).no_duplicates(),
        forall|x: A| #[trigger] swap_remove_seq(s, i).contains(x) <==> (s.contains(x) && x != s[i]),
{
    let r = swap_remove_seq(s, i);
    let n = s.len() as int;
    lemma_swap_remove_points(s, i);
    assert forall|j: int, k: int|
        0 <= j < r.len() && 0 <= k < r.len() && j != k implies r[j] != r[k] by {
        let sj: int = if j == i { n - 1 } else { j };
        let sk: int = if k == i { n - 1 } else { k };
        assert(r[j] == s[sj]);
        assert(r[k] == s[sk]);
        assert(sj != sk);
    }
    assert forall|x: A| #[trigger] r.contains(x) implies s.contains(x) && x != s[i] by {
        let j = choose|j: int| 0 <= j < r.len() && r[j] == x;
        let sj: int = if j == i { n - 1 } else { j };
        assert(s[sj] == x);
        assert(sj != i);
        assert(s.contains(x));
    }
    assert forall|x: A| s.contains(x) && x != s[i] implies #[trigger] r.contains(x) by {
        let j = choose|j: int| 0 <= j < n && s[j] == x;
        assert(j != i);
        if j == n - 1 {
            assert(i < n - 1);
            assert(r[i] == x);
        } else {
            assert(r[j] == x);
        }
    }
}

/// Appending `x` adds exactly `x` to the members of `s`, and keeps a
/// duplicate-free sequence duplicate-free when `x` is fresh.
pub proof fn lemma_push_properties<A>(s: Seq<A>, x: A)
    ensures
        forall|y: A| #[trigger] s.push(x).contains(y) <==> (s.contains(y) || y == x),
        s.no_duplicates() && !s.contains(x) ==> s.push(x).no_duplicates(),
{
    let q = s.push(x);
    assert forall|y: A| #[trigger] q.contains(y) implies s.contains(y) || y == x by {
        let j = choose|j: int| 0 <= j < q.len() && q[j] == y;
        if j < s.len() {
            assert(s[j] == y);
        }
    }
    assert forall|y: A| s.contains(y) implies q.contains(y) by {
        let j = choose|j: int| 0 <= j < s.len() && s[j] == y;
        assert(q[j] == y);
    }
    assert(q[s.len() as int] == x);
    if s.no_duplicates() && !s.contains(x) {
        assert forall|j: int, k: int|
            0 <= j < q.len() && 0 <= k < q.len() && j != k implies q[j] != q[k] by {
            if j < s.len() && k < s.len() {
                assert(s.no_duplicates());
            } else if j == s.len() {
                assert(q[k] == s[k]);
                assert(s.contains(s[k]));
            } else if k == s.len() {
                assert(q[j] == s[j]);
                assert(s.contains(s[j]));
            }
        }
    }
}

} // verus!
