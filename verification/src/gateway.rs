//! The gateway as a whole: many calls, one input controller, one lock.
//!
//! The calls of this crate share nothing. What they share at run time, the
//! controller and the lock on it, belongs to the host, and so does the
//! scheduling of the callers. This module is a model of that whole: any number
//! of calls, a lock that admits one holder, and a scheduler that is free to let
//! any call take its next step at any time and to report any answer. What is
//! proved of the model is what the steps of the calls owe to the lock: however
//! the calls are scheduled, the mechanism observes the injections of each call
//! in one piece.

use vstd::prelude::*;
use crate::call::Phase;
use crate::error::InputError;
use crate::press::{KeyEvent, PressState, PressStep};
use crate::text::{TextState, TextStepView};

verus! {

/// A call of either kind.
pub enum CallState {
    Press(PressState),
    Text(TextState),
}

/// What the mechanism is handed in one injection.
pub enum Injection {
    Key(KeyEvent),
    Text(Seq<char>),
}

/// A step of a call of either kind.
pub enum Step {
    Acquire,
    Inject(Injection),
    Finish(Result<(), InputError>),
}

impl CallState {
    pub open spec fn phase(self) -> Phase {
        match self {
            CallState::Press(state) => state.phase,
            CallState::Text(state) => state.phase,
        }
    }

    /// The step that follows the report `accepted`.
    pub open spec fn step(self, accepted: bool) -> Step {
        match self {
            CallState::Press(state) => match state.step(accepted) {
                PressStep::Acquire => Step::Acquire,
                PressStep::Inject(event) => Step::Inject(Injection::Key(event)),
                PressStep::Finish(result) => Step::Finish(result),
            },
            CallState::Text(state) => match state.step(accepted) {
                TextStepView::Acquire => Step::Acquire,
                TextStepView::Inject(text) => Step::Inject(Injection::Text(text)),
                TextStepView::Finish(result) => Step::Finish(result),
            },
        }
    }

    /// The state that follows the report `accepted`.
    pub open spec fn after(self, accepted: bool) -> CallState {
        match self {
            CallState::Press(state) => CallState::Press(state.after(accepted)),
            CallState::Text(state) => CallState::Text(state.after(accepted)),
        }
    }
}

/// One injection as the mechanism observes it, with the call that it came from.
pub struct Observed {
    pub call: int,
    pub injection: Injection,
}

/// One move of the scheduler: the call at index `call` takes its next step,
/// and `accepted` is reported to it.
pub struct Turn {
    pub call: int,
    pub accepted: bool,
}

/// The calls, the lock, and what the mechanism has observed so far.
pub struct Gateway {
    pub calls: Seq<CallState>,
    /// The call that holds the lock on the controller, if one does.
    pub holder: Option<int>,
    /// The injections, in the order in which the mechanism received them.
    pub observed: Seq<Observed>,
}

impl Gateway {
    /// The gateway before any call has taken a step.
    pub open spec fn start(calls: Seq<CallState>) -> Gateway {
        Gateway { calls, holder: None, observed: Seq::empty() }
    }

    /// One turn. A call that asks for the lock gets it if the lock is free, and
    /// otherwise waits: it takes no step. A call that names an injection has it
    /// performed. A call that ends frees the lock if it holds it. A turn for a
    /// call that does not exist changes nothing.
    pub open spec fn turn(self, turn: Turn) -> Gateway {
        if 0 <= turn.call < self.calls.len() {
            let call = self.calls[turn.call];
            let moved = self.calls.update(turn.call, call.after(turn.accepted));
            match call.step(turn.accepted) {
                Step::Acquire => if self.holder is None {
                    Gateway { calls: moved, holder: Some(turn.call), ..self }
                } else {
                    self
                },
                Step::Inject(injection) => Gateway {
                    calls: moved,
                    observed: self.observed.push(Observed { call: turn.call, injection }),
                    ..self
                },
                Step::Finish(_) => Gateway {
                    calls: moved,
                    holder: if self.holder == Some(turn.call) {
                        None
                    } else {
                        self.holder
                    },
                    ..self
                },
            }
        } else {
            self
        }
    }

    /// The gateway after the turns of `schedule`, in their order.
    pub open spec fn run(self, schedule: Seq<Turn>) -> Gateway
        decreases schedule.len(),
    {
        if schedule.len() == 0 {
            self
        } else {
            self.run(schedule.drop_last()).turn(schedule.last())
        }
    }

    /// What holds of the gateway at all times, and implies [`serialized`].
    spec fn inv(self) -> bool {
        &&& self.holder matches Some(h) ==> 0 <= h < self.calls.len()
        &&& forall|c: int|
            0 <= c < self.calls.len() ==> (#[trigger] self.calls[c].phase() == Phase::Holding
                <==> self.holder == Some(c))
        &&& forall|i: int|
            0 <= i < self.observed.len() ==> {
                &&& 0 <= (#[trigger] self.observed[i]).call < self.calls.len()
                &&& self.calls[self.observed[i].call].phase() != Phase::Waiting
            }
        &&& forall|i: int, j: int|
            0 <= i < j < self.observed.len() && self.holder == Some(
                (#[trigger] self.observed[i]).call,
            ) ==> (#[trigger] self.observed[j]).call == self.observed[i].call
        &&& serialized(self.observed)
    }
}

/// Whether the injections of each call lie together: between two injections
/// of one call there is none of another.
pub open spec fn serialized(observed: Seq<Observed>) -> bool {
    forall|i: int, j: int, k: int|
        0 <= i < j < k < observed.len() && (#[trigger] observed[i]).call == (
        #[trigger] observed[k]).call ==> (#[trigger] observed[j]).call == observed[i].call
}

proof fn lemma_turn_keeps_inv(gateway: Gateway, turn: Turn)
    requires
        gateway.inv(),
    ensures
        gateway.turn(turn).inv(),
{
    let next = gateway.turn(turn);
    if 0 <= turn.call < gateway.calls.len() {
        let call = gateway.calls[turn.call];
        assert(call.phase() == Phase::Holding <==> gateway.holder == Some(turn.call));
        match call.step(turn.accepted) {
            Step::Acquire => {},
            Step::Inject(injection) => {
                assert(call.phase() == Phase::Holding);
                assert(call.after(turn.accepted).phase() == Phase::Holding);
                let last = gateway.observed.len() as int;
                assert forall|i: int, j: int, k: int|
                    0 <= i < j < k < next.observed.len() && (#[trigger] next.observed[i]).call == (
                    #[trigger] next.observed[k]).call implies (#[trigger] next.observed[j]).call
                    == next.observed[i].call by {
                    if k == last {
                        assert(gateway.observed[i].call == turn.call);
                        assert(gateway.observed[j].call == gateway.observed[i].call);
                    } else {
                        assert(gateway.observed[i].call == gateway.observed[k].call);
                        assert(gateway.observed[j].call == gateway.observed[i].call);
                    }
                }
            },
            Step::Finish(_) => {
                assert(call.after(turn.accepted).phase() is Over);
            },
        }
    }
}

proof fn lemma_run_keeps_inv(gateway: Gateway, schedule: Seq<Turn>)
    requires
        gateway.inv(),
    ensures
        gateway.run(schedule).inv(),
    decreases schedule.len(),
{
    if schedule.len() > 0 {
        lemma_run_keeps_inv(gateway, schedule.drop_last());
        lemma_turn_keeps_inv(gateway.run(schedule.drop_last()), schedule.last());
    }
}

/// One call at a time holds the controller. Take any calls that have not
/// begun, any schedule of their steps and any answers of the mechanism. Then
/// the calls that stand between their `Acquire` and their `Finish` are at most
/// one, the holder of the lock; and since a call names an injection only
/// there, no two calls are ever at the mechanism together.
pub proof fn one_call_holds_the_controller(calls: Seq<CallState>, schedule: Seq<Turn>)
    requires
        forall|c: int| 0 <= c < calls.len() ==> (#[trigger] calls[c]).phase() == Phase::Waiting,
    ensures
        ({
            let gateway = Gateway::start(calls).run(schedule);
            &&& gateway.calls.len() == calls.len()
            &&& forall|c: int|
                0 <= c < calls.len() ==> (#[trigger] gateway.calls[c].phase() == Phase::Holding
                    <==> gateway.holder == Some(c))
            &&& forall|c: int, accepted: bool|
                0 <= c < calls.len() && #[trigger] gateway.calls[c].step(accepted) is Inject
                    ==> gateway.holder == Some(c)
        }),
{
    let start = Gateway::start(calls);
    lemma_run_keeps_inv(start, schedule);
    lemma_run_keeps_calls(start, schedule);
    let gateway = start.run(schedule);
    assert forall|c: int, accepted: bool|
        0 <= c < calls.len() && #[trigger] gateway.calls[c].step(accepted) is Inject implies {
            gateway.holder == Some(c)
        } by {
        assert(gateway.calls[c].phase() == Phase::Holding);
    }
}

proof fn lemma_run_keeps_calls(gateway: Gateway, schedule: Seq<Turn>)
    ensures
        gateway.run(schedule).calls.len() == gateway.calls.len(),
    decreases schedule.len(),
{
    if schedule.len() > 0 {
        lemma_run_keeps_calls(gateway, schedule.drop_last());
    }
}

/// Calls are serialized. Take any calls that have not begun, any schedule of
/// their steps and any answers of the mechanism. Then between two injections
/// of one call the mechanism observes none of another call: a sequence of key
/// events is never interleaved with another sequence, nor with a text.
pub proof fn calls_are_serialized(calls: Seq<CallState>, schedule: Seq<Turn>)
    requires
        forall|c: int| 0 <= c < calls.len() ==> (#[trigger] calls[c]).phase() == Phase::Waiting,
    ensures
        serialized(Gateway::start(calls).run(schedule).observed),
{
    lemma_run_keeps_inv(Gateway::start(calls), schedule);
}

/// The injections of the call at index `call` among `observed`, in the order
/// in which the mechanism received them.
pub open spec fn injections_of(observed: Seq<Observed>, call: int) -> Seq<Injection>
    decreases observed.len(),
{
    if observed.len() == 0 {
        Seq::empty()
    } else {
        let before = injections_of(observed.drop_last(), call);
        if observed.last().call == call {
            before.push(observed.last().injection)
        } else {
            before
        }
    }
}

impl CallState {
    /// Whether the call has not taken a step yet.
    pub open spec fn is_fresh(self) -> bool {
        match self {
            CallState::Press(state) => state == PressState::fresh(state.direction, state.codes),
            CallState::Text(state) => state == TextState::fresh(state.text),
        }
    }

    /// The injections of the call if nothing stops it, in their order: an event
    /// for each code, or the text, if it has characters.
    pub open spec fn planned(self) -> Seq<Injection> {
        match self {
            CallState::Press(state) => Seq::new(
                state.codes.len(),
                |i: int| Injection::Key(state.event(i)),
            ),
            CallState::Text(state) => if state.text.len() == 0 {
                Seq::empty()
            } else {
                seq![Injection::Text(state.text)]
            },
        }
    }

    /// How many injections the call has named.
    pub open spec fn issued(self) -> nat {
        match self {
            CallState::Press(state) => state.issued,
            CallState::Text(state) => if state.issued {
                1
            } else {
                0
            },
        }
    }

    /// Whether `self` is a later state of the call that began as `begun`, of
    /// which the mechanism has received `seen`.
    spec fn continues(self, begun: CallState, seen: Seq<Injection>) -> bool {
        &&& match (self, begun) {
            (CallState::Press(state), CallState::Press(begun)) => {
                &&& state.direction == begun.direction
                &&& state.codes == begun.codes
                &&& state.codes_valid_up_to(state.issued as int)
            },
            (CallState::Text(state), CallState::Text(begun)) => state.text == begun.text,
            _ => false,
        }
        &&& self.issued() <= self.planned().len()
        &&& self.phase() == Phase::Waiting ==> self.issued() == 0
        &&& seen == self.planned().take(self.issued() as int)
    }
}

impl Gateway {
    /// What holds at all times of a gateway whose calls began as `begun`.
    spec fn follows(self, begun: Seq<CallState>) -> bool {
        &&& self.calls.len() == begun.len()
        &&& forall|c: int|
            0 <= c < self.calls.len() ==> (#[trigger] self.calls[c]).continues(
                begun[c],
                injections_of(self.observed, c),
            )
    }
}

proof fn lemma_turn_follows(gateway: Gateway, begun: Seq<CallState>, turn: Turn)
    requires
        gateway.follows(begun),
    ensures
        gateway.turn(turn).follows(begun),
{
    let next = gateway.turn(turn);
    if 0 <= turn.call < gateway.calls.len() {
        let call = gateway.calls[turn.call];
        let moved = call.after(turn.accepted);
        assert(call.continues(begun[turn.call], injections_of(gateway.observed, turn.call)));
        assert(moved.planned() == call.planned());
        match call.step(turn.accepted) {
            Step::Inject(injection) => {
                assert(next.observed.drop_last() == gateway.observed);
                assert(injection == call.planned()[call.issued() as int]);
                assert(moved.issued() == call.issued() + 1);
                assert forall|c: int| 0 <= c < next.calls.len() implies (
                #[trigger] next.calls[c]).continues(begun[c], injections_of(next.observed, c)) by {
                    assert(gateway.calls[c].continues(
                        begun[c],
                        injections_of(gateway.observed, c),
                    ));
                    if c == turn.call {
                        assert(injections_of(next.observed, c) =~= moved.planned().take(
                            moved.issued() as int,
                        ));
                    }
                }
            },
            _ => {
                assert(moved.issued() == call.issued());
                assert forall|c: int| 0 <= c < next.calls.len() implies (
                #[trigger] next.calls[c]).continues(begun[c], injections_of(next.observed, c)) by {
                    assert(gateway.calls[c].continues(
                        begun[c],
                        injections_of(gateway.observed, c),
                    ));
                }
            },
        }
    }
}

proof fn lemma_run_follows(gateway: Gateway, begun: Seq<CallState>, schedule: Seq<Turn>)
    requires
        gateway.follows(begun),
    ensures
        gateway.run(schedule).follows(begun),
    decreases schedule.len(),
{
    if schedule.len() > 0 {
        lemma_run_follows(gateway, begun, schedule.drop_last());
        lemma_turn_follows(gateway.run(schedule.drop_last()), begun, schedule.last());
    }
}

/// Order is preserved among concurrent calls. Take any calls that have not
/// taken a step, any schedule of their steps and any answers of the mechanism.
/// Then what the mechanism observes of each call is the beginning of what that
/// call plans: its injections, each once, in their order, and nothing else.
/// No event among them stands for a code that denotes no key.
pub proof fn calls_are_observed_in_order(calls: Seq<CallState>, schedule: Seq<Turn>, call: int)
    requires
        forall|c: int| 0 <= c < calls.len() ==> (#[trigger] calls[c]).is_fresh(),
        0 <= call < calls.len(),
    ensures
        ({
            let seen = injections_of(Gateway::start(calls).run(schedule).observed, call);
            &&& seen.is_prefix_of(calls[call].planned())
            &&& calls[call] matches CallState::Press(state) ==> state.codes_valid_up_to(
                seen.len() as int,
            )
        }),
{
    let start = Gateway::start(calls);
    assert forall|c: int| 0 <= c < start.calls.len() implies (#[trigger] start.calls[c]).continues(
        calls[c],
        injections_of(start.observed, c),
    ) by {
        assert(calls[c].is_fresh());
        assert(injections_of(start.observed, c) =~= calls[c].planned().take(0));
    }
    lemma_run_follows(start, calls, schedule);
    let end = start.run(schedule);
    assert(end.calls[call].continues(calls[call], injections_of(end.observed, call)));
}

} // verus!
