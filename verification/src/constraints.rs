//! Which unknowns a set of Dirichlet conditions fixes.

use vstd::prelude::*;

verus! {

/// The unknowns listed in `nodes`, each once, in increasing order: the
/// constrained indices of Dirichlet conditions set on `nodes` (conditions
/// may repeat a node; the last value given for it is the one kept).
pub fn constrained_indices(size: usize, nodes: &Vec<usize>) -> (out: Vec<usize>)
    requires
        forall|k: int| 0 <= k < nodes@.len() ==> #[trigger] nodes@[k] < size,
    ensures
        forall|p: int, q: int| 0 <= p < q < out@.len() ==> #[trigger] out@[p] < #[trigger] out@[q],
        forall|x: usize| #[trigger] out@.contains(x) <==> nodes@.contains(x),
{
    let mut marked: Vec<bool> = Vec::new();
    let mut i: usize = 0;
    while i < size
        invariant
            i <= size,
            marked@.len() == i,
            forall|k: int| 0 <= k < i ==> !#[trigger] marked@[k],
        decreases size - i,
    {
        marked.push(false);
        i = i + 1;
    }
    let mut k: usize = 0;
    while k < nodes.len()
        invariant
            forall|j: int| 0 <= j < nodes@.len() ==> #[trigger] nodes@[j] < size,
            marked@.len() == size,
            k <= nodes@.len(),
            forall|x: int| 0 <= x < size ==> (#[trigger] marked@[x] <==> exists|j: int| 0 <= j < k && nodes@[j] == x),
        decreases nodes@.len() - k,
    {
        let n = nodes[k];
        marked.set(n, true);
        proof {
            assert forall|x: int| 0 <= x < size implies (#[trigger] marked@[x] <==> exists|j: int|
                0 <= j < k + 1 && nodes@[j] == x) by {
                if x == n {
                    assert(nodes@[k as int] == x);
                } else if marked@[x] {
                    let j = choose|j: int| 0 <= j < k && nodes@[j] == x;
                    assert(0 <= j < k + 1 && nodes@[j] == x);
                }
            }
        }
        k = k + 1;
    }
    let mut out: Vec<usize> = Vec::new();
    let mut x: usize = 0;
    while x < size
        invariant
            forall|j: int| 0 <= j < nodes@.len() ==> #[trigger] nodes@[j] < size,
            marked@.len() == size,
            x <= size,
            forall|y: int| 0 <= y < size ==> (#[trigger] marked@[y] <==> exists|j: int|
                0 <= j < nodes@.len() && nodes@[j] == y),
            forall|p: int| 0 <= p < out@.len() ==> #[trigger] out@[p] < x,
            forall|p: int, q: int| 0 <= p < q < out@.len() ==> #[trigger] out@[p] < #[trigger] out@[q],
            forall|y: usize| y < x ==> (#[trigger] out@.contains(y) <==> marked@[y as int]),
            forall|y: usize| y >= x ==> !#[trigger] out@.contains(y),
        decreases size - x,
    {
        let ghost before = out@;
        if marked[x] {
            out.push(x);
            proof {
                assert forall|y: usize| y < x + 1 implies (#[trigger] out@.contains(y) <==> marked@[y as int]) by {
                    if y == x {
                        assert(out@[out@.len() - 1] == y);
                    } else if out@.contains(y) {
                        let p = choose|p: int| 0 <= p < out@.len() && out@[p] == y;
                        if p < before.len() {
                            assert(before[p] == y);
                            assert(before.contains(y));
                        } else {
                            assert(out@[p] == x);
                        }
                    } else if marked@[y as int] {
                        assert(before.contains(y));
                        let p = choose|p: int| 0 <= p < before.len() && before[p] == y;
                        assert(out@[p] == y);
                    }
                }
                assert forall|y: usize| y >= x + 1 implies !#[trigger] out@.contains(y) by {
                    if out@.contains(y) {
                        let p = choose|p: int| 0 <= p < out@.len() && out@[p] == y;
                        if p < before.len() {
                            assert(before[p] == y);
                            assert(before.contains(y));
                        }
                    }
                }
            }
        } else {
            proof {
                assert forall|y: usize| y < x + 1 implies (#[trigger] out@.contains(y) <==> marked@[y as int]) by {
                    if y == x {
                        assert(!before.contains(y));
                    }
                }
            }
        }
        x = x + 1;
    }
    proof {
        assert forall|y: usize| #[trigger] out@.contains(y) <==> nodes@.contains(y) by {
            if nodes@.contains(y) {
                let j = choose|j: int| 0 <= j < nodes@.len() && nodes@[j] == y;
                assert(marked@[y as int]);
            }
            if out@.contains(y) {
                if y < size {
                    assert(marked@[y as int]);
                    let j = choose|j: int| 0 <= j < nodes@.len() && nodes@[j] == y as int;
                    assert(nodes@[j] == y);
                }
            }
        }
    }
    out
}

} // verus!
