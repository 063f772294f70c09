//! Stable sorting by an integer key.

use vstd::prelude::*;

verus! {

/// Whether item `a` comes before item `b`: by their keys, upwards or downwards, and in their
/// given order where the keys are the same.
pub open spec fn precedes(keys: Seq<i128>, upwards: bool, a: int, b: int) -> bool {
    if keys[a] == keys[b] {
        a < b
    } else if upwards {
        keys[a] < keys[b]
    } else {
        keys[a] > keys[b]
    }
}

/// `order` lists every index of `keys` once, each item before those that it precedes.
pub open spec fn sorts(order: Seq<usize>, keys: Seq<i128>, upwards: bool) -> bool {
    &&& order.len() == keys.len()
    &&& forall|k: int| 0 <= k < order.len() ==> (#[trigger] order[k]) < keys.len()
    &&& forall|a: int, b: int|
        0 <= a < b < order.len() ==> precedes(
            keys,
            upwards,
            #[trigger] order[a] as int,
            #[trigger] order[b] as int,
        )
    &&& forall|j: usize| j < keys.len() ==> order.contains(j)
}

/// The order that sorts `keys`.
pub fn sort_order(keys: &Vec<i128>, upwards: bool) -> (r: Vec<usize>)
    ensures
        sorts(r@, keys@, upwards),
{
    let mut out: Vec<usize> = Vec::new();
    let mut i: usize = 0;
    while i < keys.len()
        invariant
            i <= keys.len(),
            out.len() == i,
            forall|k: int| 0 <= k < out.len() ==> (#[trigger] out@[k]) < i,
            forall|a: int, b: int|
                0 <= a < b < out.len() ==> precedes(
                    keys@,
                    upwards,
                    #[trigger] out@[a] as int,
                    #[trigger] out@[b] as int,
                ),
            forall|j: usize| j < i ==> out@.contains(j),
        decreases keys.len() - i,
    {
        let ghost before = out@;
        let mut at: usize = out.len();
        while at > 0 && keys[out[at - 1]] != keys[i] && (keys[out[at - 1]] > keys[i]) == upwards
            invariant
                at <= out.len(),
                i < keys.len(),
                out@ == before,
                forall|k: int| 0 <= k < out.len() ==> (#[trigger] before[k]) < i,
                forall|k: int|
                    at <= k < out.len() ==> precedes(
                        keys@,
                        upwards,
                        i as int,
                        #[trigger] before[k] as int,
                    ),
            decreases at,
        {
            at = at - 1;
        }
        proof {
            assert forall|k: int| 0 <= k < at implies precedes(
                keys@,
                upwards,
                #[trigger] before[k] as int,
                i as int,
            ) by {
                if k < at - 1 {
                    assert(precedes(keys@, upwards, before[k] as int, before[at - 1] as int));
                }
            }
        }
        out.insert(at, i);
        proof {
            let after = out@;
            assert(after =~= before.insert(at as int, i));
            assert forall|a: int, b: int| 0 <= a < b < after.len() implies precedes(
                keys@,
                upwards,
                #[trigger] after[a] as int,
                #[trigger] after[b] as int,
            ) by {
                if a < at && b < at {
                    assert(after[a] == before[a] && after[b] == before[b]);
                } else if a < at && b > at {
                    assert(after[a] == before[a] && after[b] == before[b - 1]);
                } else if a > at {
                    assert(after[a] == before[a - 1] && after[b] == before[b - 1]);
                } else if a == at {
                    assert(after[b] == before[b - 1]);
                } else {
                    assert(after[a] == before[a]);
                }
            }
            assert forall|j: usize| j < i + 1 implies after.contains(j) by {
                if j < i {
                    assert(before.contains(j));
                    let k = choose|k: int| 0 <= k < before.len() && before[k] == j;
                    if k < at {
                        assert(after[k] == j);
                    } else {
                        assert(after[k + 1] == j);
                    }
                } else {
                    assert(after[at as int] == j);
                }
            }
        }
        i = i + 1;
    }
    out
}

/// Sorted upwards no key is followed by a smaller one, and downwards by no greater one; equal keys
/// stand in the order in which they came, and no item stands twice.
pub proof fn law_sorted_keys_ascend(order: Seq<usize>, keys: Seq<i128>, upwards: bool, a: int, b: int)
    requires
        sorts(order, keys, upwards),
        0 <= a < b < order.len(),
    ensures
        upwards ==> keys[order[a] as int] <= keys[order[b] as int],
        !upwards ==> keys[order[a] as int] >= keys[order[b] as int],
        keys[order[a] as int] == keys[order[b] as int] ==> order[a] < order[b],
        order[a] != order[b],
{
    assert(precedes(keys, upwards, order[a] as int, order[b] as int));
}

} // verus!
