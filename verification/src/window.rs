//! A bound on the number of calls under way at once.
//!
//! The calls of a run are numbered from zero. `FetchWindow` says when the
//! next one may start, so that no more than `MAX_IN_FLIGHT` are under way at
//! any time. The caller starts a call when the window hands out its position,
//! and tells the window when a call has come back.

use vstd::prelude::*;

verus! {

/// The most balance calls that may be under way at the same time.
pub const MAX_IN_FLIGHT: usize = 16;

/// How far a run of calls has come.
pub struct FetchState {
    /// The number of calls to make.
    pub total: nat,
    /// The number of calls started so far: those at the positions below it.
    pub launched: nat,
    /// The number of calls that have come back.
    pub landed: nat,
}

/// Something that happens during a run of calls.
pub enum FetchEvent {
    /// The caller asks to start the next call.
    Launch,
    /// A call comes back.
    Landing,
}

/// The state before any call has started.
pub open spec fn start(total: nat) -> FetchState {
    FetchState { total, launched: 0, landed: 0 }
}

/// The number of calls that have started and not come back.
pub open spec fn in_flight(state: FetchState) -> int {
    state.launched - state.landed
}

/// Whether the next call may start: there is one left to start, and fewer
/// than `MAX_IN_FLIGHT` are under way.
pub open spec fn can_launch(state: FetchState) -> bool {
    state.launched < state.total && in_flight(state) < MAX_IN_FLIGHT
}

/// Whether every call has come back.
pub open spec fn all_landed(state: FetchState) -> bool {
    state.landed == state.total
}

/// The state after the caller asked to start the next call. Where none may
/// start, nothing changes.
pub open spec fn after_launch(state: FetchState) -> FetchState {
    if can_launch(state) {
        FetchState { launched: state.launched + 1, ..state }
    } else {
        state
    }
}

/// The state after a call came back. Where none is under way, nothing
/// changes.
pub open spec fn after_landing(state: FetchState) -> FetchState {
    if in_flight(state) > 0 {
        FetchState { landed: state.landed + 1, ..state }
    } else {
        state
    }
}

/// The state after one event.
pub open spec fn after_event(state: FetchState, event: FetchEvent) -> FetchState {
    match event {
        FetchEvent::Launch => after_launch(state),
        FetchEvent::Landing => after_landing(state),
    }
}

/// The state after a run of events.
pub open spec fn after_events(state: FetchState, events: Seq<FetchEvent>) -> FetchState
    decreases events.len(),
{
    if events.len() == 0 {
        state
    } else {
        after_event(after_events(state, events.drop_last()), events.last())
    }
}

/// What holds of every state a run can be in: no more calls have come back
/// than were started, no more were started than there are to make, and at
/// most `MAX_IN_FLIGHT` are under way.
pub open spec fn within_bounds(state: FetchState) -> bool {
    &&& state.landed <= state.launched <= state.total
    &&& in_flight(state) <= MAX_IN_FLIGHT
}

/// However launches and landings follow one another, the number of calls
/// under way never exceeds `MAX_IN_FLIGHT`.
pub proof fn in_flight_bounded(total: nat, events: Seq<FetchEvent>)
    ensures
        within_bounds(after_events(start(total), events)),
        0 <= in_flight(after_events(start(total), events)) <= MAX_IN_FLIGHT,
        after_events(start(total), events).total == total,
    decreases events.len(),
{
    if events.len() > 0 {
        in_flight_bounded(total, events.drop_last());
    }
}

/// A run never stalls: as long as a call is left to start and nothing is under
/// way, the next call may start; and as long as not every call has come back,
/// either one may start or one is under way.
pub proof fn run_can_go_on(state: FetchState)
    requires
        within_bounds(state),
        !all_landed(state),
    ensures
        can_launch(state) || in_flight(state) > 0,
        in_flight(state) == 0 ==> can_launch(state),
{
}

/// The bookkeeping of a run of calls.
#[derive(Debug)]
pub struct FetchWindow {
    total: usize,
    launched: usize,
    landed: usize,
}

impl View for FetchWindow {
    type V = FetchState;

    closed spec fn view(&self) -> FetchState {
        FetchState {
            total: self.total as nat,
            launched: self.launched as nat,
            landed: self.landed as nat,
        }
    }
}

impl FetchWindow {
    #[verifier::type_invariant]
    spec fn bounded(self) -> bool {
        within_bounds(self@)
    }

    /// The window for a run of `total` calls, none of them started.
    pub fn new(total: usize) -> (r: FetchWindow)
        ensures
            r@ == start(total as nat),
    {
        FetchWindow { total, launched: 0, landed: 0 }
    }

    /// The number of calls that have started and not come back. It is never
    /// more than `MAX_IN_FLIGHT`.
    pub fn in_flight(&self) -> (r: usize)
        ensures
            r == in_flight(self@),
            r <= MAX_IN_FLIGHT,
            within_bounds(self@),
    {
        proof {
            use_type_invariant(self);
        }
        self.launched - self.landed
    }

    /// Starts the next call if one may start, and gives its position.
    pub fn launch(&mut self) -> (r: Option<usize>)
        ensures
            final(self)@ == after_launch(old(self)@),
            match r {
                Some(position) => can_launch(old(self)@) && position == old(self)@.launched,
                None => !can_launch(old(self)@),
            },
            within_bounds(final(self)@),
    {
        proof {
            use_type_invariant(&*self);
        }
        if self.launched < self.total && self.launched - self.landed < MAX_IN_FLIGHT {
            let position = self.launched;
            self.launched = position + 1;
            Some(position)
        } else {
            None
        }
    }

    /// Takes note that a call has come back. Says whether one was under way.
    pub fn land(&mut self) -> (r: bool)
        ensures
            final(self)@ == after_landing(old(self)@),
            r == (in_flight(old(self)@) > 0),
            within_bounds(final(self)@),
    {
        proof {
            use_type_invariant(&*self);
        }
        if self.landed < self.launched {
            self.landed = self.landed + 1;
            true
        } else {
            false
        }
    }

    /// Whether every call has come back.
    pub fn is_done(&self) -> (r: bool)
        ensures
            r == all_landed(self@),
    {
        self.landed == self.total
    }
}

} // verus!
