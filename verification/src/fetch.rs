//! A run of balance calls over the catalog, from the first call to the
//! holdings.
//!
//! `BalanceRun` names the contracts to call, hands out the calls so that no
//! more than `MAX_IN_FLIGHT` are under way at once, takes in the answers in
//! whatever order they come, and turns them into holdings at the end. The
//! caller makes the calls.

use vstd::prelude::*;
use crate::amount::RawAmount;
use crate::balances::{
    answered_balance, arrange_balances, balance_targets, balances_wanted, complete_run, Landing,
};
use crate::decimals::DecimalsMap;
use crate::positions::picked_positions;
use crate::report::{
    get_token_balances, holding_views, precisions_known, token_holding, Holding,
};
use crate::targets::{first_bad_address, targets_at, BadAddress, Target};
use crate::token::{token_views, Token, TokenView};
use crate::window::{
    after_landing, after_launch, all_landed, can_launch, in_flight, start, FetchState, FetchWindow,
    MAX_IN_FLIGHT,
};

verus! {

/// How far a run of balance calls has come.
pub struct RunView {
    /// The contracts to call, in the order of the catalog.
    pub targets: Seq<Target>,
    /// How many calls have started and how many have come back.
    pub window: FetchState,
    /// The answers taken in so far, in the order they came.
    pub landings: Seq<Landing>,
}

/// A run of balance calls.
pub struct BalanceRun {
    targets: Vec<Target>,
    window: FetchWindow,
    landings: Vec<Landing>,
}

impl View for BalanceRun {
    type V = RunView;

    closed spec fn view(&self) -> RunView {
        RunView { targets: self.targets@, window: self.window@, landings: self.landings@ }
    }
}

/// The holding at each position is that of the target's token, with the
/// token's precision and the balance that the call at that position came to.
pub open spec fn holdings_of(
    holdings: Seq<Holding>,
    tokens: Seq<TokenView>,
    decimals: Map<Seq<char>, i32>,
    landings: Seq<Landing>,
) -> bool {
    let positions = picked_positions(balances_wanted(tokens));
    &&& holdings.len() == positions.len()
    &&& forall|k: int|
        0 <= k < landings.len() ==> {
            let token = tokens[positions[(#[trigger] landings[k]).position as int]];
            holdings[landings[k].position as int]@ == token_holding(
                token,
                decimals[token.address],
                answered_balance(landings[k].answer),
            )
        }
}

impl BalanceRun {
    /// Starts a run over the catalog: one call for every entry but the native
    /// asset's, none of them started. Fails on the first such entry whose
    /// address cannot be parsed.
    pub fn start(tokens: &Vec<Token>) -> (r: Result<BalanceRun, BadAddress>)
        ensures
            match r {
                Ok(run) => {
                    &&& targets_at(
                        run@.targets,
                        token_views(tokens@),
                        picked_positions(balances_wanted(token_views(tokens@))),
                    )
                    &&& run@.window == start(run@.targets.len())
                    &&& run@.landings.len() == 0
                },
                Err(bad) => first_bad_address(
                    token_views(tokens@),
                    balances_wanted(token_views(tokens@)),
                    bad.index as int,
                ),
            },
    {
        match balance_targets(tokens) {
            Ok(targets) => {
                let window = FetchWindow::new(targets.len());
                Ok(BalanceRun { targets, window, landings: Vec::new() })
            },
            Err(bad) => Err(bad),
        }
    }

    /// The number of calls that have started and not come back. It is never
    /// more than `MAX_IN_FLIGHT`.
    pub fn in_flight(&self) -> (r: usize)
        ensures
            r == in_flight(self@.window),
            r <= MAX_IN_FLIGHT,
    {
        self.window.in_flight()
    }

    /// Starts the next call if one may start: gives its position and the
    /// contract to call. None starts while `MAX_IN_FLIGHT` calls are under
    /// way, nor when every call has been started.
    pub fn launch(&mut self) -> (r: Option<(usize, Target)>)
        ensures
            final(self)@.targets == old(self)@.targets,
            final(self)@.landings == old(self)@.landings,
            final(self)@.window == after_launch(old(self)@.window),
            in_flight(final(self)@.window) <= MAX_IN_FLIGHT,
            match r {
                Some((position, target)) => {
                    &&& can_launch(old(self)@.window)
                    &&& position == old(self)@.window.launched
                    &&& position < old(self)@.targets.len()
                    &&& target == old(self)@.targets[position as int]
                },
                None => !can_launch(old(self)@.window) || old(self)@.window.launched >= old(
                    self,
                )@.targets.len(),
            },
    {
        match self.window.launch() {
            Some(position) => {
                if position < self.targets.len() {
                    Some((position, self.targets[position]))
                } else {
                    None
                }
            },
            None => None,
        }
    }

    /// Takes in the answer of the call at `position`, `None` where the call
    /// failed. Says whether a call was under way; where none was, nothing
    /// changes.
    pub fn land(&mut self, position: usize, answer: Option<RawAmount>) -> (r: bool)
        ensures
            final(self)@.targets == old(self)@.targets,
            final(self)@.window == after_landing(old(self)@.window),
            in_flight(final(self)@.window) <= MAX_IN_FLIGHT,
            r == (in_flight(old(self)@.window) > 0),
            final(self)@.landings == if r {
                old(self)@.landings.push(Landing { position, answer })
            } else {
                old(self)@.landings
            },
    {
        if self.window.land() {
            self.landings.push(Landing { position, answer });
            true
        } else {
            false
        }
    }

    /// Whether every call has come back.
    pub fn is_done(&self) -> (r: bool)
        ensures
            r == all_landed(self@.window),
    {
        self.window.is_done()
    }

    /// The wallet's holdings of the tokens, in the order of the catalog.
    ///
    /// There is a result when the answers taken in are those of a complete
    /// run, one for each call, the run was started over this catalog, and
    /// every token that was asked has a precision on record. A call that
    /// failed gives a holding of zero.
    pub fn finish(self, tokens: &Vec<Token>, decimals: &DecimalsMap) -> (r: Option<Vec<Holding>>)
        ensures
            r is Some <==> {
                &&& complete_run(self@.targets.len(), self@.landings)
                &&& self@.targets.len() == picked_positions(
                    balances_wanted(token_views(tokens@)),
                ).len()
                &&& precisions_known(token_views(tokens@), decimals@)
            },
            r matches Some(holdings) ==> holdings_of(
                holdings@,
                token_views(tokens@),
                decimals@,
                self@.landings,
            ),
    {
        match arrange_balances(self.targets.len(), &self.landings) {
            Some(balances) => match get_token_balances(tokens, decimals, &balances) {
                Some(holdings) => {
                    proof {
                        let views = token_views(tokens@);
                        let positions = picked_positions(balances_wanted(views));
                        assert forall|k: int| 0 <= k < self.landings@.len() implies {
                            let token = views[positions[(#[trigger] self.landings@[k]).position as int]];
                            holdings@[self.landings@[k].position as int]@ == token_holding(
                                token,
                                decimals@[token.address],
                                answered_balance(self.landings@[k].answer),
                            )
                        } by {
                            let p = self.landings@[k].position as int;
                            assert(holding_views(holdings@)[p] == holdings@[p]@);
                        }
                    }
                    Some(holdings)
                },
                None => None,
            },
            None => None,
        }
    }
}

} // verus!
