use vstd::prelude::*;

verus! {

/// Entry `a` comes before entry `b` in a size listing: larger first, and among
/// equal sizes the one met first.
pub open spec fn precedes(sizes: Seq<u64>, a: int, b: int) -> bool {
    sizes[a] > sizes[b] || (sizes[a] == sizes[b] && a < b)
}

/// `order` lists every index of `sizes` once, by descending size, keeping the
/// encounter order among equal sizes.
pub open spec fn is_size_order(sizes: Seq<u64>, order: Seq<usize>) -> bool {
    &&& order.len() == sizes.len()
    &&& forall|j: int| 0 <= j < order.len() ==> #[trigger] order[j] < sizes.len()
    &&& forall|k: usize| k < sizes.len() ==> #[trigger] order.contains(k)
    &&& forall|a: int, b: int|
        0 <= a < b < order.len() ==> #[trigger] precedes(sizes, order[a] as int, order[b] as int)
}

/// Two listings that both order `sizes` as above are the same listing.
pub proof fn lemma_size_order_unique(sizes: Seq<u64>, p: Seq<usize>, q: Seq<usize>)
    requires
        is_size_order(sizes, p),
        is_size_order(sizes, q),
    ensures
        p == q,
{
    assert forall|i: int| 0 <= i < p.len() implies p[i] == q[i] by {
        lemma_size_order_agree(sizes, p, q, i);
    }
    assert(p =~= q);
}

proof fn lemma_size_order_agree(sizes: Seq<u64>, p: Seq<usize>, q: Seq<usize>, i: int)
    requires
        is_size_order(sizes, p),
        is_size_order(sizes, q),
        0 <= i < p.len(),
    ensures
        p[i] == q[i],
    decreases i,
{
    assert forall|k: int| 0 <= k < i implies p[k] == q[k] by {
        lemma_size_order_agree(sizes, p, q, k);
    }
    let x = p[i];
    let y = q[i];
    if x != y {
        assert(q.contains(x));
        let j = choose|j: int| 0 <= j < q.len() && q[j] == x;
        assert(p.contains(y));
        let jj = choose|j: int| 0 <= j < p.len() && p[j] == y;
        if j < i {
            assert(p[j] == q[j]);
            assert(precedes(sizes, p[j] as int, p[i] as int));
        }
        if jj < i {
            assert(p[jj] == q[jj]);
            assert(precedes(sizes, q[jj] as int, q[i] as int));
        }
        assert(precedes(sizes, q[i] as int, q[j] as int));
        assert(precedes(sizes, p[i] as int, p[jj] as int));
    }
}

/// The indices of `sizes` in descending order of size, stable among equal sizes.
pub fn size_order(sizes: &Vec<u64>) -> (order: Vec<usize>)
    ensures
        is_size_order(sizes@, order@),
{
    let ghost s = sizes@;
    let mut order: Vec<usize> = Vec::new();
    let mut i: usize = 0;
    while i < sizes.len()
        invariant
            s == sizes@,
            i <= sizes.len(),
            order@.len() == i,
            forall|j: int| 0 <= j < order@.len() ==> #[trigger] order@[j] < i,
            forall|k: usize| k < i ==> #[trigger] order@.contains(k),
            forall|a: int, b: int|
                0 <= a < b < order@.len() ==> #[trigger] precedes(s, order@[a] as int, order@[b] as int),
        decreases sizes.len() - i,
    {
        let size = sizes[i];
        let mut p: usize = 0;
        while p < order.len() && sizes[order[p]] >= size
            invariant
                s == sizes@,
                i < sizes.len(),
                size == s[i as int],
                p <= order@.len(),
                order@.len() == i,
                forall|j: int| 0 <= j < order@.len() ==> #[trigger] order@[j] < i,
                forall|j: int| 0 <= j < p ==> #[trigger] s[order@[j] as int] >= size,
            decreases order.len() - p,
        {
            p = p + 1;
        }
        let ghost old_order = order@;
        proof {
            assert forall|j: int| p <= j < old_order.len() implies #[trigger] s[old_order[j] as int] < size by {
                if j > p {
                    assert(precedes(s, old_order[p as int] as int, old_order[j] as int));
                }
            }
            old_order.insert_ensures(p as int, i);
        }
        order.insert(p, i);
        proof {
            let n = order@;
            assert forall|j: int| 0 <= j < n.len() implies #[trigger] n[j] < i + 1 by {
                if j > p {
                    assert(n[j] == old_order[j - 1]);
                }
            }
            assert forall|k: usize| k < i + 1 implies #[trigger] n.contains(k) by {
                if k == i {
                    assert(n[p as int] == k);
                } else {
                    assert(old_order.contains(k));
                    let j = choose|j: int| 0 <= j < old_order.len() && old_order[j] == k;
                    if j < p {
                        assert(n[j] == k);
                    } else {
                        assert(n[j + 1] == k);
                    }
                }
            }
            assert forall|a: int, b: int| 0 <= a < b < n.len() implies #[trigger] precedes(s, n[a] as int, n[b] as int) by {
                if b < p {
                    assert(precedes(s, old_order[a] as int, old_order[b] as int));
                } else if b == p {
                    assert(s[old_order[a] as int] >= size);
                } else if a < p {
                    assert(n[b] == old_order[b - 1]);
                    assert(precedes(s, old_order[a] as int, old_order[b - 1] as int));
                } else if a == p {
                    assert(n[b] == old_order[b - 1]);
                    assert(s[old_order[b - 1] as int] < size);
                } else {
                    assert(n[a] == old_order[a - 1]);
                    assert(n[b] == old_order[b - 1]);
                    assert(precedes(s, old_order[a - 1] as int, old_order[b - 1] as int));
                }
            }
        }
        i = i + 1;
    }
    order
}

} // verus!
