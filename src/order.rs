use vstd::prelude::*;
use vstd::set_lib::{lemma_int_range, lemma_subset_equality, set_int_range};

verus! {

/// `order` lists positions by ascending key, equal keys in ascending
/// position: the order a stable sort leaves them in.
pub open spec fn stably_sorted(order: Seq<usize>, keys: Seq<i128>) -> bool {
    forall|a: int, b: int|
        #![trigger order[a], order[b]]
        0 <= a < b < order.len() ==> keys[order[a] as int] < keys[order[b] as int] || (
        keys[order[a] as int] == keys[order[b] as int] && order[a] < order[b])
}

/// `order` holds each position below `n` once.
pub open spec fn is_permutation(order: Seq<usize>, n: int) -> bool {
    &&& order.len() == n
    &&& forall|k: int| 0 <= k < order.len() ==> order[k] < n
    &&& forall|a: int, b: int|
        #![trigger order[a], order[b]]
        0 <= a < b < order.len() ==> order[a] != order[b]
}

/// The positions of `keys` in the order a stable ascending sort by key
/// puts them.
pub fn stable_order(keys: &Vec<i128>) -> (r: Vec<usize>)
    ensures
        is_permutation(r@, keys@.len() as int),
        stably_sorted(r@, keys@),
{
    let n = keys.len();
    let mut order: Vec<usize> = Vec::new();
    let mut i: usize = 0;
    while i < n
        invariant
            n == keys@.len(),
            i <= n,
            order@.len() == i,
            forall|k: int| 0 <= k < order@.len() ==> order@[k] < i,
            stably_sorted(order@, keys@),
        decreases n - i,
    {
        let key = keys[i];
        let mut j: usize = order.len();
        while j > 0 && keys[order[j - 1]] > key
            invariant
                n == keys@.len(),
                i < n,
                j <= order@.len(),
                order@.len() == i,
                forall|k: int| 0 <= k < order@.len() ==> order@[k] < i,
                key == keys@[i as int],
                forall|k: int| j <= k < order@.len() ==> keys@[order@[k] as int] > key,
            decreases j,
        {
            j = j - 1;
        }
        let ghost old_order = order@;
        proof {
            if j > 0 {
                assert forall|k: int| 0 <= k < j implies keys@[old_order[k] as int] <= key by {
                    if k < j - 1 {
                        assert(old_order[k] == old_order[k]);
                        assert(old_order[j - 1] == old_order[j - 1]);
                    }
                }
            }
        }
        order.insert(j, i);
        assert(order@ == old_order.insert(j as int, i));
        assert forall|a: int, b: int|
            #![trigger order@[a], order@[b]]
            0 <= a < b < order@.len() implies keys@[order@[a] as int] < keys@[order@[b] as int]
            || (keys@[order@[a] as int] == keys@[order@[b] as int] && order@[a] < order@[b]) by {
            if a < j && b < j {
                assert(old_order[a] == old_order[a] && old_order[b] == old_order[b]);
            } else if a < j && b == j {
            } else if a < j && b > j {
                assert(old_order[a] == old_order[a] && old_order[b - 1] == old_order[b - 1]);
            } else if a == j {
            } else {
                assert(old_order[a - 1] == old_order[a - 1] && old_order[b - 1] == old_order[b - 1]);
            }
        }
        i = i + 1;
    }
    proof {
        assert forall|a: int, b: int|
            #![trigger order@[a], order@[b]]
            0 <= a < b < order@.len() implies order@[a] != order@[b] by {
            assert(keys@[order@[a] as int] < keys@[order@[b] as int] || order@[a] < order@[b]);
        }
    }
    order
}

pub open spec fn occurs(p: Seq<usize>, y: int) -> bool {
    exists|a: int| 0 <= a < p.len() && p[a] == y
}

/// Every position below `n` occurs in a permutation of them.
proof fn lemma_permutation_covers(p: Seq<usize>, n: int)
    requires
        is_permutation(p, n),
    ensures
        forall|y: int| 0 <= y < n ==> #[trigger] occurs(p, y),
{
    let pi = p.map_values(|x: usize| x as int);
    assert(pi.no_duplicates()) by {
        assert forall|a: int, b: int| 0 <= a < pi.len() && 0 <= b < pi.len() && a != b implies pi[a]
            != pi[b] by {
            if a < b {
                assert(p[a] != p[b]);
            } else {
                assert(p[b] != p[a]);
            }
        }
    }
    pi.unique_seq_to_set();
    lemma_int_range(0, n);
    assert(pi.to_set().subset_of(set_int_range(0, n))) by {
        assert forall|y: int| pi.to_set().contains(y) implies set_int_range(0, n).contains(y) by {
            let a = choose|a: int| 0 <= a < pi.len() && pi[a] == y;
            assert(p[a] < n);
        }
    }
    lemma_subset_equality(pi.to_set(), set_int_range(0, n));
    assert forall|y: int| 0 <= y < n implies #[trigger] occurs(p, y) by {
        assert(set_int_range(0, n).contains(y));
        assert(pi.to_set().contains(y));
        let a = choose|a: int| 0 <= a < pi.len() && pi[a] == y;
        assert(p[a] == y);
    }
}

proof fn lemma_prefix_equal(p: Seq<usize>, q: Seq<usize>, keys: Seq<i128>, m: int)
    requires
        is_permutation(p, keys.len() as int),
        is_permutation(q, keys.len() as int),
        stably_sorted(p, keys),
        stably_sorted(q, keys),
        0 <= m <= keys.len(),
    ensures
        forall|c: int| 0 <= c < m ==> p[c] == q[c],
    decreases m,
{
    let n = keys.len() as int;
    if m > 0 {
        lemma_prefix_equal(p, q, keys, m - 1);
        let a = m - 1;
        lemma_permutation_covers(p, n);
        lemma_permutation_covers(q, n);
        if p[a] != q[a] {
            let (x, y) = (p[a], q[a]);
            if keys[x as int] < keys[y as int] || (keys[x as int] == keys[y as int] && x < y) {
                // x comes first in q too, so before position a: where p agrees with q
                assert(occurs(q, x as int));
                let b = choose|b: int| 0 <= b < n && q[b] == x;
                if b < a {
                    assert(p[b] == q[b]);
                    assert(p[b] != p[a]);
                } else {
                    assert(b > a);
                    assert(q[a] == q[a] && q[b] == q[b]);
                }
            } else {
                assert(occurs(p, y as int));
                let b = choose|b: int| 0 <= b < n && p[b] == y;
                if b < a {
                    assert(p[b] == q[b]);
                    assert(q[b] != q[a]);
                } else {
                    assert(b > a);
                    assert(p[a] == p[a] && p[b] == p[b]);
                }
            }
        }
    }
}

/// A stable sort has one outcome: two permutations that both list the
/// positions by ascending key, ties by position, are the same.
pub proof fn lemma_stable_order_unique(p: Seq<usize>, q: Seq<usize>, keys: Seq<i128>)
    requires
        is_permutation(p, keys.len() as int),
        is_permutation(q, keys.len() as int),
        stably_sorted(p, keys),
        stably_sorted(q, keys),
    ensures
        p == q,
{
    lemma_prefix_equal(p, q, keys, keys.len() as int);
    assert(p =~= q);
}

} // verus!
