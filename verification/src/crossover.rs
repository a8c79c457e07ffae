//! Order crossover (OX), shared by the genetic algorithm and the particle
//! swarm: the child keeps one parent's cut segment verbatim and fills the
//! remaining positions, wrapping around past the segment, with the other
//! parent's cities in their cyclic order, skipping the ones already used.
//! Whatever the parents and the distinct cut points, the child is proved to
//! be a valid permutation.

use vstd::prelude::*;
use vstd::set_lib::{lemma_int_range, lemma_len_subset, lemma_subset_equality, set_int_range};
use vstd::seq_lib::group_filter_ensures;
use crate::perm::{lemma_perm_complete, perm_contains, valid_perm};
use crate::tsplib::copy_indices;

verus! {

broadcast use vstd::set::group_set_axioms;

/// The set of cities whose used-flag is raised.
spec fn used_set(used: Seq<bool>) -> Set<int> {
    Set::new(|v: int| 0 <= v < used.len() && used[v])
}

/// Position `i` lies in the cyclic window of length `w` starting at `start`
/// on a cycle of length `n` (a start of `n` wraps immediately to `0`).
spec fn in_window(i: int, start: int, w: int, n: int) -> bool {
    if start + w <= n {
        start <= i < start + w
    } else {
        (start <= i < n) || (0 <= i < start + w - n)
    }
}

/// Child position `p` already holds a city: it lies in the copied segment
/// `left .. right` or among the `w` positions filled cyclically after it.
spec fn ox_filled(p: int, left: int, right: int, w: int, n: int) -> bool {
    (left <= p < right) || in_window(p, right, w, n)
}

/// Drops the cities parent A's segment `left .. right` already uses.
pub open spec fn ox_pred(a: Seq<usize>, left: int, right: int) -> spec_fn(usize) -> bool {
    |v: usize| !a.subrange(left, right).contains(v)
}

/// Parent B's cities read cyclically from `right` onward, those in parent
/// A's segment dropped: the values that fill the child outside the segment,
/// in order.
pub open spec fn ox_fill(a: Seq<usize>, b: Seq<usize>, left: int, right: int) -> Seq<usize> {
    (b.subrange(right, b.len() as int) + b.subrange(0, right)).filter(ox_pred(a, left, right))
}

/// The order-crossover child as a function of the parents and the cuts:
/// parent A's segment in place, and the fill values laid out cyclically
/// from `right` onward.
pub open spec fn ox_child(a: Seq<usize>, b: Seq<usize>, left: int, right: int) -> Seq<usize> {
    Seq::new(
        a.len(),
        |p: int|
            if left <= p < right {
                a[p]
            } else if p >= right {
                ox_fill(a, b, left, right)[p - right]
            } else {
                ox_fill(a, b, left, right)[p + a.len() - right]
            },
    )
}

/// Filtering one more element keeps it exactly when the predicate does.
proof fn lemma_filter_push(s: Seq<usize>, x: usize, pred: spec_fn(usize) -> bool)
    ensures
        s.push(x).filter(pred) == (if pred(x) {
            s.filter(pred).push(x)
        } else {
            s.filter(pred)
        }),
{
    reveal(Seq::filter);
    assert(s.push(x).drop_last() =~= s);
    assert(s.push(x).last() == x);
    assert(s.push(x).len() == s.len() + 1);
}

/// Order crossover.  The child keeps parent A's segment `left .. right`
/// verbatim; every other position is filled, cyclically from `right`
/// onward, with parent B's cities read in B's cyclic order from `right`
/// onward, skipping cities the segment already uses.  The result is a valid
/// permutation for any two parent permutations and any cuts
/// `left < right <= n`.
pub fn order_crossover(a: &Vec<usize>, b: &Vec<usize>, left: usize, right: usize) -> (child: Vec<
    usize,
>)
    requires
        valid_perm(a@, a@.len() as nat),
        valid_perm(b@, a@.len() as nat),
        left < right <= a@.len(),
    ensures
        valid_perm(child@, a@.len() as nat),
        child@.subrange(left as int, right as int) == a@.subrange(left as int, right as int),
        child@ == ox_child(a@, b@, left as int, right as int),
{
    let n = a.len();
    let ghost ni = n as int;
    let ghost li = left as int;
    let ghost ri = right as int;
    let mut used: Vec<bool> = Vec::new();
    for t in 0..n
        invariant
            used@.len() == t,
            forall|v: int| 0 <= v < t ==> !(#[trigger] used@[v]),
    {
        used.push(false);
    }
    proof {
        assert(used_set(used@) =~= Set::<int>::empty());
    }
    let mut child = copy_indices(a);

    // Mark the segment's cities used.
    let mut i = left;
    while i < right
        invariant
            ni == n as int,
            li == left as int,
            ri == right as int,
            n == a@.len(),
            valid_perm(a@, n as nat),
            left <= i <= right <= n,
            used@.len() == n,
            child@ == a@,
            forall|v: usize| v < n
                ==> ((#[trigger] used@[v as int]) <==> exists|p: int| li <= p < i && a@[p] == v),
            used_set(used@).finite(),
            used_set(used@).len() == i - left,
        decreases right - i,
    {
        let v = a[i];
        proof {
            if used@[v as int] {
                let p = choose|p: int| li <= p < i && a@[p] == v;
                assert(a@[p] == a@[i as int]);
                assert(false);
            }
            assert(used_set(used@.update(v as int, true)) =~= used_set(used@).insert(v as int));
        }
        used[v] = true;
        proof {
            assert forall|v2: usize| v2 < n implies ((#[trigger] used@[v2 as int])
                <==> exists|p: int| li <= p < i + 1 && a@[p] == v2) by {
                if used@[v2 as int] {
                    if v2 == v {
                        assert(li <= i as int && a@[i as int] == v2);
                    } else {
                        let p = choose|p: int| li <= p < i && a@[p] == v2;
                        assert(li <= p < i + 1 && a@[p] == v2);
                    }
                } else {
                    if exists|p: int| li <= p < i + 1 && a@[p] == v2 {
                        let p = choose|p: int| li <= p < i + 1 && a@[p] == v2;
                        assert(p == i as int);
                        assert(v2 == v);
                        assert(false);
                    }
                }
            }
        }
        i = i + 1;
    }

    // Fill the remaining positions cyclically from B.
    let ghost rot = b@.subrange(ri, ni) + b@.subrange(0, ri);
    let ghost pred = ox_pred(a@, li, ri);
    let ghost mut kept: Seq<usize> = Seq::empty();
    proof {
        broadcast use group_filter_ensures;

        assert(rot.take(0) =~= Seq::<usize>::empty());
        reveal(Seq::filter);
        assert(Seq::<usize>::empty().filter(pred) =~= Seq::<usize>::empty());
        // after the marking loop, a used flag means exactly: the city sits
        // in parent A's segment
        assert forall|v: usize| v < n implies ((#[trigger] used@[v as int])
            <==> a@.subrange(li, ri).contains(v)) by {
            if used@[v as int] {
                let pp = choose|pp: int| li <= pp < ri && a@[pp] == v;
                assert(a@.subrange(li, ri)[pp - li] == v);
            }
            if a@.subrange(li, ri).contains(v) {
                let idx = choose|idx: int|
                    0 <= idx < a@.subrange(li, ri).len() && a@.subrange(li, ri)[idx] == v;
                assert(a@[li + idx] == v);
            }
        }
        // the rotation of a permutation has no repeated city
        assert forall|t1: int, t2: int| 0 <= t1 < t2 < ni implies rot[t1] != rot[t2] by {
            let s1 = if t1 < ni - ri { ri + t1 } else { t1 - (ni - ri) };
            let s2 = if t2 < ni - ri { ri + t2 } else { t2 - (ni - ri) };
            assert(rot[t1] == b@[s1]);
            assert(rot[t2] == b@[s2]);
            assert(s1 != s2);
        }
    }
    let mut w: usize = 0;
    let mut wp: usize = if right < n { right } else { 0 };
    let mut bidx: usize = if right < n { right } else { 0 };
    let mut k: usize = 0;
    while k < n
        invariant
            ni == n as int,
            li == left as int,
            ri == right as int,
            n == a@.len(),
            n == b@.len(),
            valid_perm(a@, n as nat),
            valid_perm(b@, n as nat),
            left < right <= n,
            used@.len() == n,
            child@.len() == n,
            k <= n,
            w + (right - left) <= n,
            w + (right - left) < n ==> wp as int == (if ri + w < ni {
                ri + w as int
            } else {
                ri + w as int - ni
            }),
            wp < n,
            k < n ==> bidx as int == (if ri + k < ni {
                ri + k as int
            } else {
                ri + k as int - ni
            }),
            forall|p: int| li <= p < ri ==> (#[trigger] child@[p]) == a@[p],
            forall|p: int| 0 <= p < n && ox_filled(p, li, ri, w as int, ni)
                ==> (#[trigger] child@[p]) < n && used@[child@[p] as int],
            forall|p1: int, p2: int|
                0 <= p1 < n && 0 <= p2 < n && p1 != p2 && ox_filled(p1, li, ri, w as int, ni)
                    && ox_filled(p2, li, ri, w as int, ni) ==> child@[p1] != child@[p2],
            used_set(used@).finite(),
            used_set(used@).len() == (right - left) + w,
            forall|q: int| 0 <= q < n && in_window(q, ri, k as int, ni)
                ==> used@[(#[trigger] b@[q]) as int],
            rot == b@.subrange(ri, ni) + b@.subrange(0, ri),
            pred == ox_pred(a@, li, ri),
            forall|t1: int, t2: int| 0 <= t1 < t2 < ni ==> rot[t1] != rot[t2],
            kept.len() == w,
            kept == rot.take(k as int).filter(pred),
            forall|t: int| 0 <= t < w
                ==> child@[(if ri + t < ni { ri + t } else { ri + t - ni })] == kept[t],
            forall|t: int| 0 <= t < kept.len()
                ==> exists|q: int| 0 <= q < k && rot[q] == (#[trigger] kept[t]),
            forall|v: usize| v < n
                ==> ((#[trigger] used@[v as int]) <==> (a@.subrange(li, ri).contains(v)
                    || kept.contains(v))),
        decreases n - k,
    {
        proof {
            if ri + (k as int) < ni {
                assert(bidx as int == ri + (k as int));
            } else {
                assert(bidx as int == ri + (k as int) - ni);
            }
            assert(bidx < n);
        }
        let v = b[bidx];
        if !used[v] {
            proof {
                if w == n - (right - left) {
                    let range = set_int_range(0, ni);
                    lemma_int_range(0, ni);
                    assert forall|x: int| used_set(used@).contains(x)
                        implies range.contains(x) by {}
                    assert(used_set(used@).subset_of(range));
                    lemma_len_subset(used_set(used@), range);
                    lemma_subset_equality(used_set(used@), range);
                    assert(range.contains(v as int));
                    assert(false);
                }
                assert(!ox_filled(wp as int, li, ri, w as int, ni));
                assert(used_set(used@.update(v as int, true))
                    =~= used_set(used@).insert(v as int));
            }
            let ghost old_child = child@;
            let ghost old_used = used@;
            let ghost old_kept = kept;
            let ghost old_w = w as int;
            let ghost old_wp = wp as int;
            child[wp] = v;
            used[v] = true;
            w = w + 1;
            wp = if wp + 1 < n { wp + 1 } else { 0 };
            proof {
                kept = kept.push(v);
                // the value written is B's city at cyclic offset k
                if (k as int) < ni - ri {
                    assert(rot[k as int] == b@[ri + k]);
                } else {
                    assert(rot[k as int] == b@[k - (ni - ri)]);
                }
                assert(rot[k as int] == v);
                assert(pred(v)) by {
                    assert(!old_used[v as int]);
                }
                assert(rot.take(k as int + 1) =~= rot.take(k as int).push(v));
                lemma_filter_push(rot.take(k as int), v, pred);
                assert(kept == rot.take(k as int + 1).filter(pred));
                // earlier writes sit at other cyclic offsets and stay put
                assert forall|t: int| 0 <= t < w implies
                    child@[(if ri + t < ni { ri + t } else { ri + t - ni })] == kept[t] by {
                    if t < old_w {
                        assert((if ri + t < ni { ri + t } else { ri + t - ni }) != old_wp);
                        assert(child@[(if ri + t < ni { ri + t } else { ri + t - ni })]
                            == old_child[(if ri + t < ni { ri + t } else { ri + t - ni })]);
                        assert(kept[t] == old_kept[t]);
                    } else {
                        assert(child@[old_wp] == v);
                    }
                }
                assert forall|t: int| 0 <= t < kept.len() implies
                    exists|q: int| 0 <= q < k + 1 && rot[q] == (#[trigger] kept[t]) by {
                    if t < old_w {
                        let q = choose|q: int| 0 <= q < k && rot[q] == old_kept[t];
                        assert(rot[q] == kept[t]);
                    } else {
                        assert(rot[k as int] == kept[t]);
                    }
                }
                assert forall|v2: usize| v2 < n implies ((#[trigger] used@[v2 as int])
                    <==> (a@.subrange(li, ri).contains(v2) || kept.contains(v2))) by {
                    if v2 == v {
                        assert(kept[kept.len() - 1] == v);
                        assert(kept.contains(v2));
                    } else {
                        assert(used@[v2 as int] == old_used[v2 as int]);
                        assert(kept.contains(v2) <==> old_kept.contains(v2)) by {
                            if kept.contains(v2) {
                                let t = choose|t: int|
                                    0 <= t < kept.len() && kept[t] == v2;
                                assert(t < old_kept.len());
                                assert(old_kept[t] == v2);
                            }
                            if old_kept.contains(v2) {
                                let t = choose|t: int|
                                    0 <= t < old_kept.len() && old_kept[t] == v2;
                                assert(kept[t] == v2);
                            }
                        }
                    }
                }
                assert forall|p: int| 0 <= p < n implies
                    (ox_filled(p, li, ri, w as int, ni)
                        <==> (ox_filled(p, li, ri, old_w, ni) || p == old_wp)) by {}
                assert forall|p: int| 0 <= p < n && ox_filled(p, li, ri, w as int, ni)
                    implies (#[trigger] child@[p]) < n && used@[child@[p] as int] by {
                    if p == old_wp {
                        assert(child@[p] == v);
                    } else {
                        assert(child@[p] == old_child[p]);
                        assert(old_used[old_child[p] as int]);
                    }
                }
                assert forall|p1: int, p2: int|
                    0 <= p1 < n && 0 <= p2 < n && p1 != p2
                        && ox_filled(p1, li, ri, w as int, ni)
                        && ox_filled(p2, li, ri, w as int, ni)
                    implies child@[p1] != child@[p2] by {
                    if p1 == old_wp {
                        assert(child@[p2] == old_child[p2]);
                        assert(old_used[old_child[p2] as int]);
                        assert(!old_used[v as int]);
                    } else if p2 == old_wp {
                        assert(child@[p1] == old_child[p1]);
                        assert(old_used[old_child[p1] as int]);
                        assert(!old_used[v as int]);
                    }
                }
            }
        } else {
            proof {
                if (k as int) < ni - ri {
                    assert(rot[k as int] == b@[ri + k]);
                } else {
                    assert(rot[k as int] == b@[k - (ni - ri)]);
                }
                assert(rot[k as int] == v);
                // a used value here must come from the segment: it cannot
                // have been written before, since B never repeats a city
                if kept.contains(v) {
                    let t = choose|t: int| 0 <= t < kept.len() && kept[t] == v;
                    let q = choose|q: int| 0 <= q < k && rot[q] == kept[t];
                    assert(rot[q] == rot[k as int]);
                    assert(false);
                }
                assert(a@.subrange(li, ri).contains(v));
                assert(!pred(v));
                assert(rot.take(k as int + 1) =~= rot.take(k as int).push(v));
                lemma_filter_push(rot.take(k as int), v, pred);
                assert(kept == rot.take(k as int + 1).filter(pred));
            }
        }
        bidx = if bidx + 1 < n { bidx + 1 } else { 0 };
        k = k + 1;
    }
    proof {
        lemma_perm_complete(b@, n as nat);
        assert forall|v: int| 0 <= v < n implies used@[v] by {
            assert(perm_contains(b@, v as usize));
            let q = choose|q: int| 0 <= q < b@.len() && b@[q] == v as usize;
            assert(in_window(q, ri, ni, ni));
            assert(used@[(b@[q]) as int]);
        }
        let range = set_int_range(0, ni);
        lemma_int_range(0, ni);
        assert forall|x: int| used_set(used@).contains(x) implies range.contains(x) by {}
        assert forall|x: int| range.contains(x) implies used_set(used@).contains(x) by {
            assert(used@[x]);
        }
        assert(used_set(used@) =~= range);
        assert(w + (right - left) == n);
        assert forall|p: int| 0 <= p < n implies ox_filled(p, li, ri, w as int, ni) by {}
        assert(child@.subrange(li, ri) =~= a@.subrange(li, ri));
        // the written values are exactly B's cyclic rotation with the
        // segment's cities dropped, laid out cyclically from `right`
        assert(rot.take(ni) =~= rot);
        assert(kept == ox_fill(a@, b@, li, ri));
        assert forall|p: int| 0 <= p < n implies
            child@[p] == ox_child(a@, b@, li, ri)[p] by {
            if li <= p < ri {
            } else if p >= ri {
                let t = p - ri;
                assert(0 <= t < w);
                assert((if ri + t < ni { ri + t } else { ri + t - ni }) == p);
                assert(child@[p] == kept[t]);
            } else {
                let t = p + ni - ri;
                assert(0 <= t < w);
                assert((if ri + t < ni { ri + t } else { ri + t - ni }) == p);
                assert(child@[p] == kept[t]);
            }
        }
        assert(child@ =~= ox_child(a@, b@, li, ri));
    }
    child
}

} // verus!
