//! The permutation model shared by every tour representation: what it means
//! for a sequence of city indices to be a tour, and the closure facts the
//! engines need (a permutation visits every city; swapping, applying a swap
//! sequence or reversing a segment keeps a permutation a permutation).

use vstd::prelude::*;
use vstd::set_lib::{lemma_int_range, lemma_len_subset, lemma_subset_equality, set_int_range};

verus! {

/// `s` is a tour over `n` cities: it has length `n`, every entry is a city
/// index below `n`, and no city appears twice.
pub open spec fn valid_perm(s: Seq<usize>, n: nat) -> bool {
    &&& s.len() == n
    &&& forall|i: int| 0 <= i < n ==> (#[trigger] s[i]) < n
    &&& forall|i: int, j: int| 0 <= i < n && 0 <= j < n && i != j ==> s[i] != s[j]
}

/// City `v` appears somewhere in `s`.
pub open spec fn perm_contains(s: Seq<usize>, v: usize) -> bool {
    exists|i: int| 0 <= i < s.len() && s[i] == v
}

/// A permutation of `0 .. n` visits every city: `n` distinct values below `n`
/// leave no room for a missing one.
pub proof fn lemma_perm_complete(s: Seq<usize>, n: nat)
    requires
        valid_perm(s, n),
    ensures
        forall|v: usize| v < n ==> perm_contains(s, v),
{
    let si = s.map_values(|x: usize| x as int);
    assert(forall|i: int| 0 <= i < n ==> si[i] == (#[trigger] s[i]) as int);
    assert(si.no_duplicates()) by {
        assert forall|i: int, j: int|
            0 <= i < si.len() && 0 <= j < si.len() && i != j implies si[i] != si[j] by {
            assert(s[i] != s[j]);
        }
    }
    si.unique_seq_to_set();
    let range = set_int_range(0, n as int);
    lemma_int_range(0, n as int);
    assert(si.to_set().subset_of(range)) by {
        assert forall|x: int| si.to_set().contains(x) implies range.contains(x) by {
            assert(si.contains(x));
            let i = choose|i: int| 0 <= i < si.len() && si[i] == x;
            assert(s[i] < n);
        }
    }
    lemma_len_subset(si.to_set(), range);
    lemma_subset_equality(si.to_set(), range);
    assert forall|v: usize| v < n implies perm_contains(s, v) by {
        assert(range.contains(v as int));
        assert(si.to_set().contains(v as int));
        assert(si.contains(v as int));
        let i = choose|i: int| 0 <= i < si.len() && si[i] == v as int;
        assert(s[i] == v);
    }
}

/// Two permutations of `0 .. n` that agree everywhere but possibly at the
/// last position agree there too.
pub proof fn lemma_perm_agree_on_prefix(a: Seq<usize>, b: Seq<usize>, n: nat)
    requires
        valid_perm(a, n),
        valid_perm(b, n),
        n >= 1,
        forall|i: int| 0 <= i < n - 1 ==> a[i] == b[i],
    ensures
        a == b,
{
    lemma_perm_complete(b, n);
    assert(perm_contains(b, a[n - 1]));
    let j = choose|j: int| 0 <= j < b.len() && b[j] == a[n - 1];
    if j < n - 1 {
        assert(a[j] == a[n - 1]);
        assert(false);
    }
    assert(a =~= b);
}

/// `s` with the entries at `i` and `j` exchanged.
pub open spec fn seq_swap(s: Seq<usize>, i: int, j: int) -> Seq<usize> {
    s.update(i, s[j]).update(j, s[i])
}

/// Exchanging two entries of a permutation yields a permutation, and touches
/// no other position.
pub proof fn lemma_seq_swap_is_perm(s: Seq<usize>, n: nat, i: int, j: int)
    requires
        valid_perm(s, n),
        0 <= i < n,
        0 <= j < n,
    ensures
        valid_perm(seq_swap(s, i, j), n),
        seq_swap(s, i, j)[i] == s[j],
        seq_swap(s, i, j)[j] == s[i],
        forall|k: int| 0 <= k < n && k != i && k != j ==> seq_swap(s, i, j)[k] == s[k],
{
    let t = seq_swap(s, i, j);
    assert forall|p: int, q: int|
        0 <= p < n && 0 <= q < n && p != q implies t[p] != t[q] by {
        let sp = if p == j { i } else if p == i { j } else { p };
        let sq = if q == j { i } else if q == i { j } else { q };
        assert(t[p] == s[sp]);
        assert(t[q] == s[sq]);
        assert(sp != sq);
    }
}

/// Every index pair of the swap sequence stays below `n`.
pub open spec fn swaps_in_bounds(sw: Seq<(usize, usize)>, n: nat) -> bool {
    forall|k: int| 0 <= k < sw.len() ==> (#[trigger] sw[k]).0 < n && sw[k].1 < n
}

/// The permutation reached from `s` by performing the swaps of `sw` in order.
pub open spec fn apply_swaps(s: Seq<usize>, sw: Seq<(usize, usize)>) -> Seq<usize>
    decreases sw.len(),
{
    if sw.len() == 0 {
        s
    } else {
        apply_swaps(seq_swap(s, sw[0].0 as int, sw[0].1 as int), sw.subrange(1, sw.len() as int))
    }
}

/// Appending one swap to a sequence performs it last.
pub proof fn lemma_apply_swaps_snoc(s: Seq<usize>, sw: Seq<(usize, usize)>, p: (usize, usize))
    ensures
        apply_swaps(s, sw.push(p)) == seq_swap(apply_swaps(s, sw), p.0 as int, p.1 as int),
    decreases sw.len(),
{
    reveal_with_fuel(apply_swaps, 3);
    if sw.len() == 0 {
        assert(sw.push(p)[0] == p);
        assert(sw.push(p).subrange(1, 1) =~= Seq::<(usize, usize)>::empty());
    } else {
        let s1 = seq_swap(s, sw[0].0 as int, sw[0].1 as int);
        let tail = sw.subrange(1, sw.len() as int);
        assert(sw.push(p)[0] == sw[0]);
        assert(sw.push(p).subrange(1, sw.len() as int + 1) =~= tail.push(p));
        lemma_apply_swaps_snoc(s1, tail, p);
    }
}

/// A bounded swap sequence carries a permutation to a permutation.
pub proof fn lemma_apply_swaps_preserves_perm(s: Seq<usize>, sw: Seq<(usize, usize)>, n: nat)
    requires
        valid_perm(s, n),
        swaps_in_bounds(sw, n),
    ensures
        valid_perm(apply_swaps(s, sw), n),
    decreases sw.len(),
{
    if sw.len() > 0 {
        let tail = sw.subrange(1, sw.len() as int);
        assert(sw[0].0 < n && sw[0].1 < n);
        lemma_seq_swap_is_perm(s, n, sw[0].0 as int, sw[0].1 as int);
        assert(swaps_in_bounds(tail, n)) by {
            assert forall|k: int| 0 <= k < tail.len() implies
                (#[trigger] tail[k]).0 < n && tail[k].1 < n by {
                assert(tail[k] == sw[k + 1]);
            }
        }
        lemma_apply_swaps_preserves_perm(
            seq_swap(s, sw[0].0 as int, sw[0].1 as int),
            tail,
            n,
        );
    }
}

/// A rearrangement of a permutation — the same elements as a multiset — is
/// itself a permutation.
pub proof fn lemma_multiset_perm(a: Seq<usize>, b: Seq<usize>, n: nat)
    requires
        valid_perm(a, n),
        b.to_multiset() == a.to_multiset(),
    ensures
        valid_perm(b, n),
{
    broadcast use vstd::seq_lib::group_to_multiset_ensures;

    a.lemma_multiset_has_no_duplicates();
    b.lemma_multiset_has_no_duplicates_conv();
    assert(b.len() == b.to_multiset().len());
    assert(a.len() == a.to_multiset().len());
    assert forall|i: int| 0 <= i < b.len() implies (#[trigger] b[i]) < n by {
        assert(b.contains(b[i]));
        assert(b.to_multiset().count(b[i]) > 0);
        assert(a.contains(b[i]));
        let j = choose|j: int| 0 <= j < a.len() && a[j] == b[i];
        assert(a[j] < n);
    }
}

/// `s` with the closed segment `lo ..= hi` reversed — the 2-opt move.
pub open spec fn reverse_range(s: Seq<usize>, lo: int, hi: int) -> Seq<usize> {
    Seq::new(s.len(), |k: int| if lo <= k <= hi { s[hi - (k - lo)] } else { s[k] })
}

/// Reversing a segment of a permutation yields a permutation.
pub proof fn lemma_reverse_range_perm(s: Seq<usize>, n: nat, lo: int, hi: int)
    requires
        valid_perm(s, n),
        0 <= lo <= hi < n,
    ensures
        valid_perm(reverse_range(s, lo, hi), n),
{
    let t = reverse_range(s, lo, hi);
    assert forall|p: int, q: int|
        0 <= p < n && 0 <= q < n && p != q implies t[p] != t[q] by {
        let sp = if lo <= p <= hi { hi - (p - lo) } else { p };
        let sq = if lo <= q <= hi { hi - (q - lo) } else { q };
        assert(t[p] == s[sp]);
        assert(t[q] == s[sq]);
        assert(sp != sq);
    }
}

} // verus!
