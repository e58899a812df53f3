//! Sorting by a number, with equal ones left in their order.
use vstd::prelude::*;

use crate::ieee::{F64, SIGN64};

verus! {

/// The positions `order` visit every position of `keys` once, in the order of the keys, and the
/// positions of equal keys in their own order.
pub open spec fn is_order(keys: Seq<u64>, order: Seq<usize>) -> bool {
    &&& order.len() == keys.len()
    &&& forall|i: int| 0 <= i < order.len() ==> (#[trigger] order[i]) < keys.len()
    &&& forall|i: int, j: int|
        0 <= i < j < order.len() ==> before(keys, #[trigger] order[i], #[trigger] order[j])
}

/// Position `a` comes before position `b`.
pub open spec fn before(keys: Seq<u64>, a: usize, b: usize) -> bool {
    keys[a as int] < keys[b as int] || (keys[a as int] == keys[b as int] && a < b)
}

/// Visiting in order visits nothing twice.
pub proof fn law_order_has_no_duplicates(keys: Seq<u64>, order: Seq<usize>)
    requires
        is_order(keys, order),
    ensures
        order.no_duplicates(),
{
    assert forall|i: int, j: int|
        0 <= i < order.len() && 0 <= j < order.len() && i != j implies order[i] != order[j] by {
        if i < j {
            assert(before(keys, order[i], order[j]));
        } else {
            assert(before(keys, order[j], order[i]));
        }
    }
}

/// Visiting in order visits every position.
pub proof fn law_order_is_complete(keys: Seq<u64>, order: Seq<usize>, a: usize)
    requires
        is_order(keys, order),
        keys.len() <= usize::MAX,
        a < keys.len(),
    ensures
        exists|i: int| 0 <= i < order.len() && #[trigger] order[i] == a,
{
    law_order_has_no_duplicates(keys, order);
    if !order.contains(a) {
        let visited = order.to_set();
        let all = Set::new(|p: usize| p < keys.len());
        lemma_positions_finite(keys.len());
        order.unique_seq_to_set();
        assert(visited.subset_of(all.remove(a))) by {
            assert forall|p: usize| visited.contains(p) implies all.remove(a).contains(p) by {
                let i = choose|i: int| 0 <= i < order.len() && order[i] == p;
                assert(order[i] < keys.len());
            }
        }
        vstd::set_lib::lemma_len_subset(visited, all.remove(a));
    }
    let i = choose|i: int| 0 <= i < order.len() && order[i] == a;
    assert(order[i] == a);
}

proof fn lemma_positions_finite(n: nat)
    requires
        n <= usize::MAX,
    ensures
        Set::new(|p: usize| p < n).finite(),
        Set::new(|p: usize| p < n).len() == n,
    decreases n,
{
    let all = Set::new(|p: usize| p < n);
    if n == 0 {
        assert(all =~= Set::empty());
    } else {
        let fewer = Set::new(|p: usize| p < n - 1);
        lemma_positions_finite((n - 1) as nat);
        assert(Set::new(|p: usize| p < (n - 1) as nat) =~= fewer);
        assert(all =~= fewer.insert((n - 1) as usize));
    }
}

/// The positions of `keys` in the order of the keys.
pub fn sorted_order(keys: &Vec<u64>) -> (r: Vec<usize>)
    ensures
        is_order(keys@, r@),
        r@.len() == keys@.len(),
        forall|i: int| 0 <= i < r@.len() ==> (#[trigger] r@[i]) < keys@.len(),
        forall|i: int, j: int|
            0 <= i < j < r@.len() ==> {
                let a = #[trigger] r@[i];
                let b = #[trigger] r@[j];
                keys@[a as int] < keys@[b as int] || (keys@[a as int] == keys@[b as int] && a < b)
            },
{
    let mut order: Vec<usize> = Vec::new();
    let mut n: usize = 0;
    while n < keys.len()
        invariant
            n <= keys@.len(),
            order@.len() == n,
            forall|i: int| 0 <= i < n ==> (#[trigger] order@[i]) < n,
            forall|i: int, j: int|
                0 <= i < j < n ==> before(keys@, #[trigger] order@[i], #[trigger] order@[j]),
        decreases keys@.len() - n,
    {
        let mut at: usize = n;
        while at > 0 && keys[order[at - 1]] > keys[n]
            invariant
                at <= n < keys@.len(),
                order@.len() == n,
                forall|i: int| 0 <= i < n ==> (#[trigger] order@[i]) < n,
                forall|i: int| at <= i < n ==> keys@[#[trigger] order@[i] as int] > keys@[n as int],
            decreases at,
        {
            at -= 1;
        }
        let ghost old_order = order@;
        order.insert(at, n);
        proof {
            assert forall|i: int, j: int| 0 <= i < j < n + 1 implies before(
                keys@,
                #[trigger] order@[i],
                #[trigger] order@[j],
            ) by {
                let a = if i < at {
                    i
                } else {
                    i - 1
                };
                let b = if j < at {
                    j
                } else {
                    j - 1
                };
                if i == at {
                    assert(order@[j] == old_order[b]);
                } else if j == at {
                    assert(order@[i] == old_order[a]);
                    if at < n {
                        assert(a == at - 1 || before(keys@, old_order[a], old_order[at - 1]));
                    } else {
                        assert(a == at - 1 || before(keys@, old_order[a], old_order[at - 1]));
                    }
                } else {
                    assert(order@[i] == old_order[a] && order@[j] == old_order[b]);
                    assert(before(keys@, old_order[a], old_order[b]));
                }
            }
        }
        n += 1;
    }
    assert forall|i: int, j: int| 0 <= i < j < order@.len() implies {
        let a = #[trigger] order@[i];
        let b = #[trigger] order@[j];
        keys@[a as int] < keys@[b as int] || (keys@[a as int] == keys@[b as int] && a < b)
    } by {
        assert(before(keys@, order@[i], order@[j]));
    }
    order
}

/// The place of a double in the total order of all doubles.
pub open spec fn total_rank(x: F64) -> int {
    if x.bits < SIGN64 {
        SIGN64 + x.bits
    } else {
        u64::MAX - x.bits
    }
}

/// The place of a double in the total order of all doubles.
pub fn total_key(x: F64) -> (r: u64)
    ensures
        r == total_rank(x),
        x.bits < 0x8000_0000_0000_0000 ==> r == x.bits + 0x8000_0000_0000_0000,
        x.bits >= 0x8000_0000_0000_0000 ==> r == 0xffff_ffff_ffff_ffff - x.bits,
{
    if x.bits < SIGN64 {
        SIGN64 + x.bits
    } else {
        u64::MAX - x.bits
    }
}

/// The total order agrees with the order of the numbers.
pub proof fn law_total_order(a: F64, b: F64)
    requires
        a.less(b),
    ensures
        total_rank(a) < total_rank(b),
{
}

} // verus!
