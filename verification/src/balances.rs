//! Fetching the balance of every token of the catalog.
//!
//! Every entry but the native asset's has a contract that is asked for the
//! wallet's balance. The answers come back in any order; `arrange_balances`
//! puts them in the order of the targets. A call that failed counts as a
//! balance of zero.

use vstd::prelude::*;
use crate::amount::RawAmount;
use crate::positions::picked_positions;
use crate::targets::{first_bad_address, pick_targets, targets_at, BadAddress, Target};
use crate::token::{is_native, token_views, Token, TokenView};

verus! {

/// The balance a contract's `balanceOf` call comes to: zero where the call
/// failed.
pub open spec fn answered_balance(answer: Option<RawAmount>) -> nat {
    match answer {
        Some(amount) => amount@,
        None => 0,
    }
}

/// What a contract's `balanceOf` call comes to: its answer, or zero where the
/// call failed.
pub fn get_balance(answer: Option<RawAmount>) -> (r: RawAmount)
    ensures
        r@ == answered_balance(answer),
        answer matches Some(amount) ==> r == amount,
        answer is None ==> r@ == 0,
{
    match answer {
        Some(amount) => amount,
        None => RawAmount::zero(),
    }
}

/// For each entry of the catalog, whether its balance is held by a contract:
/// so it is for every entry but the native asset's.
pub open spec fn balances_wanted(tokens: Seq<TokenView>) -> Seq<bool> {
    Seq::new(tokens.len(), |i: int| !is_native(tokens[i]))
}

/// The contracts to ask for the wallet's balance, in the order of the
/// catalog: one for every entry but the native asset's. Fails on the first
/// such entry whose address cannot be parsed.
pub fn balance_targets(tokens: &Vec<Token>) -> (r: Result<Vec<Target>, BadAddress>)
    ensures
        match r {
            Ok(targets) => targets_at(
                targets@,
                token_views(tokens@),
                picked_positions(balances_wanted(token_views(tokens@))),
            ),
            Err(bad) => first_bad_address(
                token_views(tokens@),
                balances_wanted(token_views(tokens@)),
                bad.index as int,
            ),
        },
{
    let ghost views = token_views(tokens@);
    let mut wanted: Vec<bool> = Vec::new();
    let mut i: usize = 0;
    while i < tokens.len()
        invariant
            i <= tokens.len(),
            views == token_views(tokens@),
            wanted@.len() == i,
            forall|k: int| 0 <= k < i ==> wanted@[k] == !is_native(views[k]),
        decreases tokens.len() - i,
    {
        wanted.push(!tokens[i].is_native());
        i += 1;
    }
    assert(wanted@ =~= balances_wanted(views));
    pick_targets(tokens, &wanted)
}

/// A call that has come back: its position among the targets, and the
/// contract's answer, `None` where the call failed.
#[derive(Clone, Copy, Debug, PartialEq, Eq)]
pub struct Landing {
    pub position: usize,
    pub answer: Option<RawAmount>,
}

/// Whether the landings are those of a run of `total` calls: one for each
/// position below `total`, in whatever order.
pub open spec fn complete_run(total: nat, landings: Seq<Landing>) -> bool {
    &&& landings.len() == total
    &&& forall|k: int| 0 <= k < landings.len() ==> (#[trigger] landings[k]).position < total
    &&& forall|j: int, k: int|
        0 <= j < k < landings.len() ==> (#[trigger] landings[j]).position != (
        #[trigger] landings[k]).position
}

/// How many of the slots are taken.
pub open spec fn taken(slots: Seq<Option<RawAmount>>) -> nat
    decreases slots.len(),
{
    if slots.len() == 0 {
        0
    } else {
        taken(slots.drop_last()) + if slots.last() is Some {
            1nat
        } else {
            0nat
        }
    }
}

/// Whether a slot is taken by an amount that stands for `value`.
pub open spec fn slot_holds(slot: Option<RawAmount>, value: nat) -> bool {
    match slot {
        Some(amount) => amount@ == value,
        None => false,
    }
}

/// Taking a free slot adds one to the number of slots taken.
proof fn lemma_taken_update(slots: Seq<Option<RawAmount>>, position: int, amount: RawAmount)
    requires
        0 <= position < slots.len(),
        slots[position] is None,
    ensures
        taken(slots.update(position, Some(amount))) == taken(slots) + 1,
    decreases slots.len(),
{
    let updated = slots.update(position, Some(amount));
    if position == slots.len() - 1 {
        assert(updated.drop_last() =~= slots.drop_last());
    } else {
        lemma_taken_update(slots.drop_last(), position, amount);
        assert(updated.drop_last() =~= slots.drop_last().update(position, Some(amount)));
    }
}

/// No more slots are taken than there are, and where as many are taken as
/// there are, each one is.
proof fn lemma_taken_all(slots: Seq<Option<RawAmount>>)
    ensures
        taken(slots) <= slots.len(),
        taken(slots) == slots.len() ==> forall|p: int|
            0 <= p < slots.len() ==> (#[trigger] slots[p]) is Some,
        taken(slots) == 0 <== forall|p: int| 0 <= p < slots.len() ==> (#[trigger] slots[p]) is None,
    decreases slots.len(),
{
    if slots.len() > 0 {
        let earlier = slots.drop_last();
        lemma_taken_all(earlier);
        if taken(slots) == slots.len() {
            assert forall|p: int| 0 <= p < slots.len() implies (#[trigger] slots[p]) is Some by {
                if p < earlier.len() {
                    assert(earlier[p] == slots[p]);
                }
            }
        }
        if forall|p: int| 0 <= p < slots.len() ==> (#[trigger] slots[p]) is None {
            assert forall|p: int| 0 <= p < earlier.len() implies (#[trigger] earlier[p]) is None by {
                assert(earlier[p] == slots[p]);
            }
        }
    }
}

/// Puts the balances of a run of `total` calls in the order of the targets.
///
/// The landings may come in any order. Where they are those of a complete
/// run, the result holds for each position the balance that the call at that
/// position came to, zero for a call that failed. Where a position is
/// missing, out of range or there twice, there is no result.
pub fn arrange_balances(total: usize, landings: &Vec<Landing>) -> (r: Option<Vec<RawAmount>>)
    ensures
        r is Some <==> complete_run(total as nat, landings@),
        r matches Some(balances) ==> {
            &&& balances@.len() == total
            &&& forall|k: int|
                0 <= k < landings@.len() ==> balances@[(#[trigger] landings@[k]).position as int]@
                    == answered_balance(landings@[k].answer)
        },
{
    if landings.len() != total {
        return None;
    }
    let mut slots: Vec<Option<RawAmount>> = Vec::new();
    let mut n: usize = 0;
    while n < total
        invariant
            n <= total,
            slots@.len() == n,
            forall|p: int| 0 <= p < n ==> (#[trigger] slots@[p]) is None,
        decreases total - n,
    {
        slots.push(None);
        n += 1;
    }
    proof {
        lemma_taken_all(slots@);
    }
    let mut k: usize = 0;
    while k < landings.len()
        invariant
            k <= landings.len(),
            landings.len() == total,
            slots@.len() == total,
            taken(slots@) == k,
            forall|j: int| 0 <= j < k ==> (#[trigger] landings@[j]).position < total,
            forall|j: int|
                0 <= j < k ==> slot_holds(
                    slots@[(#[trigger] landings@[j]).position as int],
                    answered_balance(landings@[j].answer),
                ),
            forall|p: int|
                0 <= p < total && (#[trigger] slots@[p]) is Some ==> exists|j: int|
                    0 <= j < k && (#[trigger] landings@[j]).position == p,
            forall|i: int, j: int|
                0 <= i < j < k ==> (#[trigger] landings@[i]).position != (
                #[trigger] landings@[j]).position,
        decreases landings.len() - k,
    {
        let landing = landings[k];
        if landing.position >= total {
            return None;
        }
        if slots[landing.position].is_some() {
            proof {
                let j = choose|j: int| 0 <= j < k && (#[trigger] landings@[j]).position == landing.position;
                assert(landings@[j].position == landings@[k as int].position);
            }
            return None;
        }
        let amount = get_balance(landing.answer);
        proof {
            lemma_taken_update(slots@, landing.position as int, amount);
        }
        let ghost before = slots@;
        slots.set(landing.position, Some(amount));
        proof {
            assert forall|j: int| 0 <= j < k + 1 implies slot_holds(
                slots@[(#[trigger] landings@[j]).position as int],
                answered_balance(landings@[j].answer),
            ) by {
                if j < k {
                    assert(before[landings@[j].position as int] is Some);
                }
            }
            assert forall|p: int| 0 <= p < total && (#[trigger] slots@[p]) is Some implies exists|j: int|
                0 <= j < k + 1 && (#[trigger] landings@[j]).position == p by {
                if p == landing.position {
                    assert(landings@[k as int].position == p);
                } else {
                    assert(before[p] is Some);
                    let j = choose|j: int| 0 <= j < k && (#[trigger] landings@[j]).position == p;
                    assert(0 <= j < k + 1 && landings@[j].position == p);
                }
            }
            assert forall|i: int, j: int| 0 <= i < j < k + 1 implies (#[trigger] landings@[i]).position != (
            #[trigger] landings@[j]).position by {
                if j == k {
                    assert(before[landings@[i].position as int] is Some);
                }
            }
        }
        k += 1;
    }
    proof {
        lemma_taken_all(slots@);
    }
    let mut balances: Vec<RawAmount> = Vec::new();
    let mut p: usize = 0;
    while p < total
        invariant
            p <= total,
            slots@.len() == total,
            forall|q: int| 0 <= q < total ==> (#[trigger] slots@[q]) is Some,
            balances@.len() == p,
            forall|q: int| 0 <= q < p ==> slots@[q] == Some(#[trigger] balances@[q]),
        decreases total - p,
    {
        if let Some(amount) = slots[p] {
            balances.push(amount);
        }
        p += 1;
    }
    proof {
        assert forall|j: int| 0 <= j < landings@.len() implies balances@[(#[trigger] landings@[j]).position as int]@
            == answered_balance(landings@[j].answer) by {
            let q = landings@[j].position as int;
            assert(slots@[q] == Some(balances@[q]));
        }
    }
    Some(balances)
}

} // verus!
