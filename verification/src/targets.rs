//! The contracts a pass over the catalog has to call.
//!
//! A pass picks some of the catalog's entries and calls the contract of each.
//! Before the first call is made, the address of every picked entry is parsed:
//! an entry whose address is no address stops the pass.

use vstd::prelude::*;
use crate::address::{parsed_address, Address};
use crate::positions::picked_positions;
use crate::token::{token_views, Token, TokenView};

verus! {

/// A contract to call: the position of its entry in the catalog, and its
/// address.
#[derive(Clone, Copy, Debug, PartialEq, Eq)]
pub struct Target {
    pub index: usize,
    pub contract: Address,
}

/// The catalog entry at this position has an address that cannot be parsed.
#[derive(Clone, Copy, Debug, PartialEq, Eq, Structural)]
pub struct BadAddress {
    pub index: usize,
}

/// The targets are the entries at the given positions, one for one and in
/// order, each with the address that its entry's text parses to.
pub open spec fn targets_at(targets: Seq<Target>, tokens: Seq<TokenView>, positions: Seq<int>) -> bool {
    &&& targets.len() == positions.len()
    &&& forall|k: int|
        0 <= k < targets.len() ==> {
            &&& (#[trigger] targets[k]).index == positions[k]
            &&& parsed_address(tokens[positions[k]].address) == Some(targets[k].contract@)
        }
}

/// The entry at `index` is the first picked one whose address does not parse.
pub open spec fn first_bad_address(tokens: Seq<TokenView>, picked: Seq<bool>, index: int) -> bool {
    &&& 0 <= index < tokens.len()
    &&& picked[index]
    &&& parsed_address(tokens[index].address) is None
    &&& forall|j: int|
        0 <= j < index && picked[j] ==> parsed_address((#[trigger] tokens[j]).address) is Some
}

/// The target for the entry at `index`, given what its address parsed to.
pub fn make_target(index: usize, parsed: Option<Address>) -> (r: Result<Target, BadAddress>)
    ensures
        r == match parsed {
            Some(contract) => Ok::<Target, BadAddress>(Target { index, contract }),
            None => Err::<Target, BadAddress>(BadAddress { index }),
        },
{
    match parsed {
        Some(contract) => Ok(Target { index, contract }),
        None => Err(BadAddress { index }),
    }
}

/// The targets for the picked entries of the catalog, or the first picked entry
/// whose address does not parse.
pub(crate) fn pick_targets(tokens: &Vec<Token>, picked: &Vec<bool>) -> (r: Result<Vec<Target>, BadAddress>)
    requires
        picked.len() == tokens.len(),
    ensures
        match r {
            Ok(targets) => targets_at(
                targets@,
                token_views(tokens@),
                picked_positions(picked@),
            ),
            Err(bad) => first_bad_address(token_views(tokens@), picked@, bad.index as int),
        },
{
    let ghost views = token_views(tokens@);
    let mut targets: Vec<Target> = Vec::new();
    let mut i: usize = 0;
    while i < tokens.len()
        invariant
            i <= tokens.len(),
            picked.len() == tokens.len(),
            views == token_views(tokens@),
            targets_at(targets@, views, picked_positions(picked@.take(i as int))),
            forall|j: int| 0 <= j < i && picked@[j] ==> parsed_address((#[trigger] views[j]).address) is Some,
        decreases tokens.len() - i,
    {
        proof {
            assert(picked@.take(i + 1).drop_last() =~= picked@.take(i as int));
            assert(views[i as int] == tokens@[i as int]@);
        }
        if picked[i] {
            match make_target(i, Address::parse(tokens[i].address.as_str())) {
                Ok(target) => {
                    targets.push(target);
                },
                Err(bad) => {
                    return Err(bad);
                },
            }
        }
        i += 1;
    }
    assert(picked@.take(i as int) =~= picked@);
    Ok(targets)
}

} // verus!
