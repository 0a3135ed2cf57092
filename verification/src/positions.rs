//! The positions of a sequence that are picked out by a flag.
//!
//! Several passes of the library go over the catalog and act on some of its
//! entries only. Which entries those are is said once, here: by the positions
//! at which a sequence of flags is set.

use vstd::prelude::*;

verus! {

/// The positions that are picked, in ascending order.
pub open spec fn picked_positions(picked: Seq<bool>) -> Seq<int>
    decreases picked.len(),
{
    if picked.len() == 0 {
        Seq::empty()
    } else {
        let earlier = picked_positions(picked.drop_last());
        if picked.last() {
            earlier.push(picked.len() - 1)
        } else {
            earlier
        }
    }
}

/// Every picked position is one that is picked.
pub proof fn picked_positions_are_picked(picked: Seq<bool>)
    ensures
        forall|k: int|
            0 <= k < picked_positions(picked).len() ==> 0 <= (#[trigger] picked_positions(
                picked,
            )[k]) < picked.len() && picked[picked_positions(picked)[k]],
    decreases picked.len(),
{
    if picked.len() > 0 {
        let earlier = picked.drop_last();
        picked_positions_are_picked(earlier);
        assert forall|k: int| 0 <= k < picked_positions(picked).len() implies 0 <= (
        #[trigger] picked_positions(picked)[k]) < picked.len() && picked[picked_positions(
            picked,
        )[k]] by {
            if k < picked_positions(earlier).len() {
                let position = picked_positions(earlier)[k];
                assert(picked_positions(picked)[k] == position);
                assert(earlier[position] == picked[position]);
            }
        }
    }
}

/// The picked positions come in ascending order.
pub proof fn picked_positions_ascend(picked: Seq<bool>)
    ensures
        forall|j: int, k: int|
            0 <= j < k < picked_positions(picked).len() ==> (#[trigger] picked_positions(picked)[j])
                < (#[trigger] picked_positions(picked)[k]),
    decreases picked.len(),
{
    if picked.len() > 0 {
        let earlier = picked_positions(picked.drop_last());
        let whole = picked_positions(picked);
        picked_positions_ascend(picked.drop_last());
        picked_positions_are_picked(picked.drop_last());
        assert forall|j: int, k: int| 0 <= j < k < whole.len() implies (#[trigger] whole[j]) < (
        #[trigger] whole[k]) by {
            assert(whole[j] == earlier[j]);
            if k < earlier.len() {
                assert(whole[k] == earlier[k]);
            } else {
                assert(whole[k] == picked.len() - 1);
                assert(0 <= earlier[j] < picked.drop_last().len());
            }
        }
    }
}

/// Every position that is picked is among the picked positions.
pub proof fn picked_positions_cover(picked: Seq<bool>, i: int)
    requires
        0 <= i < picked.len(),
        picked[i],
    ensures
        exists|k: int|
            0 <= k < picked_positions(picked).len() && #[trigger] picked_positions(picked)[k] == i,
    decreases picked.len(),
{
    let earlier = picked_positions(picked.drop_last());
    if i == picked.len() - 1 {
        assert(picked_positions(picked)[earlier.len() as int] == i);
    } else {
        picked_positions_cover(picked.drop_last(), i);
        let k = choose|k: int| 0 <= k < earlier.len() && #[trigger] earlier[k] == i;
        assert(picked_positions(picked)[k] == i);
    }
}

/// The picked positions among the first `n` are the first of all the picked
/// positions.
pub proof fn picked_positions_prefix(picked: Seq<bool>, n: int)
    requires
        0 <= n <= picked.len(),
    ensures
        picked_positions(picked.take(n)).len() <= picked_positions(picked).len(),
        forall|k: int|
            0 <= k < picked_positions(picked.take(n)).len() ==> picked_positions(picked)[k]
                == #[trigger] picked_positions(picked.take(n))[k],
    decreases picked.len(),
{
    if n == picked.len() {
        assert(picked.take(n) =~= picked);
    } else {
        picked_positions_prefix(picked.drop_last(), n);
        assert(picked.drop_last().take(n) =~= picked.take(n));
    }
}

/// Taking one more position into account adds it to the picked positions
/// where it is picked, and changes nothing where it is not.
pub proof fn picked_positions_step(picked: Seq<bool>, n: int)
    requires
        0 <= n < picked.len(),
    ensures
        picked_positions(picked.take(n + 1)) == if picked[n] {
            picked_positions(picked.take(n)).push(n)
        } else {
            picked_positions(picked.take(n))
        },
{
    assert(picked.take(n + 1).drop_last() =~= picked.take(n));
}

} // verus!
