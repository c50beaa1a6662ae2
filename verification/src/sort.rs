//! Stable insertion sort of scored moves.
use vstd::prelude::*;
use crate::engine::Mv;

verus! {

/// `x` may stand before `y`: higher-or-equal first when `desc`, lower-or-equal first otherwise.
pub open spec fn in_order(x: i32, y: i32, desc: bool) -> bool {
    if desc { x >= y } else { x <= y }
}

pub open spec fn sorted_by_score(s: Seq<(Mv, i32)>, desc: bool) -> bool {
    forall|a: int, b: int| 0 <= a < b < s.len() ==> in_order(#[trigger] s[a].1, #[trigger] s[b].1, desc)
}

fn swap_adjacent(v: &mut Vec<(Mv, i32)>, j: usize)
    requires 0 < j < old(v)@.len(),
    ensures
        final(v)@ == old(v)@.update(j - 1, old(v)@[j as int]).update(j as int, old(v)@[j - 1]),
        final(v)@.to_multiset() == old(v)@.to_multiset(),
{
    let x = v[j - 1];
    let y = v[j];
    let ghost s0 = v@;
    v.set(j - 1, y);
    let ghost s1 = v@;
    v.set(j, x);
    proof {
        broadcast use vstd::multiset::group_multiset_axioms, vstd::seq_lib::group_to_multiset_ensures;
        assert(s0[j - 1] == x);
        assert(s1[j as int] == y);
        vstd::seq_lib::to_multiset_update(s0, j - 1, y);
        vstd::seq_lib::to_multiset_update(s1, j as int, x);
        assert(s0.to_multiset().insert(y).remove(x).insert(x).remove(y) =~= s0.to_multiset());
    }
}

fn out_of_order(v: &Vec<(Mv, i32)>, j: usize, desc: bool) -> (r: bool)
    requires 0 < j < v@.len(),
    ensures r == !in_order(v@[j - 1].1, v@[j as int].1, desc),
{
    if desc { v[j - 1].1 < v[j].1 } else { v[j - 1].1 > v[j].1 }
}

/// Stable sort by score: descending when `desc`, ascending otherwise; equal scores keep their order.
pub fn sort_by_score(v: &mut Vec<(Mv, i32)>, desc: bool)
    ensures
        final(v)@.len() == old(v)@.len(),
        final(v)@.to_multiset() == old(v)@.to_multiset(),
        sorted_by_score(final(v)@, desc),
{
    let n = v.len();
    if n < 2 {
        return;
    }
    let mut i: usize = 1;
    while i < n
        invariant
            1 <= i <= n, n == v@.len(), n == old(v)@.len(),
            v@.to_multiset() == old(v)@.to_multiset(),
            forall|a: int, b: int| 0 <= a < b < i ==> in_order(#[trigger] v@[a].1, #[trigger] v@[b].1, desc),
        decreases n - i,
    {
        let mut j: usize = i;
        while j > 0 && out_of_order(v, j, desc)
            invariant
                0 <= j <= i < n, n == v@.len(),
                v@.to_multiset() == old(v)@.to_multiset(),
                forall|a: int, b: int| 0 <= a < b < j ==> in_order(#[trigger] v@[a].1, #[trigger] v@[b].1, desc),
                forall|a: int, b: int| j < a < b <= i ==> in_order(#[trigger] v@[a].1, #[trigger] v@[b].1, desc),
                forall|a: int, b: int| 0 <= a < j && j < b <= i ==> in_order(#[trigger] v@[a].1, #[trigger] v@[b].1, desc),
                forall|b: int| j < b <= i ==> in_order(v@[j as int].1, #[trigger] v@[b].1, desc),
            decreases j,
        {
            swap_adjacent(v, j);
            j -= 1;
        }
        assert forall|a: int, b: int| 0 <= a < b < i + 1 implies in_order(#[trigger] v@[a].1, #[trigger] v@[b].1, desc) by {
            if b == j && a < j {
                assert(in_order(v@[j - 1].1, v@[j as int].1, desc));
                if a < j - 1 {
                    assert(in_order(v@[a].1, v@[j - 1].1, desc));
                }
            } else if a == j {
            } else if a < j && b > j {
            }
        }
        i += 1;
    }
}

} // verus!
