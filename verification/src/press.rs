//! Pressing or releasing a sequence of keys as one call.
//!
//! The call takes the controller once, names one event for each code, in the
//! order of the codes, and gives the controller up when it is through or when
//! something fails: a code that denotes no key, or an event that the mechanism
//! refuses. It never looks at a code that follows a failure, and it takes
//! nothing back.

use vstd::prelude::*;
use crate::call::Phase;
use crate::direction::{direction_of, parse_direction, Direction};
use crate::error::InputError;
use crate::key::{is_key_code, translate, try_get_key, Key};

verus! {

/// One key transition, ready for the injection mechanism.
#[derive(Clone, Copy, Debug, PartialEq, Eq, Hash, Structural)]
pub struct KeyEvent {
    pub key: Key,
    pub direction: Direction,
}

/// What a key call does next.
#[derive(Clone, Copy, Debug, PartialEq, Eq)]
pub enum PressStep {
    /// Wait for exclusive access to the input controller, and keep it.
    Acquire,
    /// Hand this event to the injection mechanism, and report its answer.
    Inject(KeyEvent),
    /// Give the controller up: the call is over, with this result.
    Finish(Result<(), InputError>),
}

/// The state of a key call, as contracts see it.
pub struct PressState {
    /// The direction of every event of the call.
    pub direction: Direction,
    /// The codes of the call, in the order in which the caller gave them.
    pub codes: Seq<i32>,
    pub phase: Phase,
    /// How many events the call has named. They are those of the first
    /// `issued` codes.
    pub issued: nat,
    /// Whether the last event named still waits for the mechanism's answer.
    pub pending: bool,
}

impl PressState {
    /// The state of a call that has not taken a step yet.
    pub open spec fn fresh(direction: Direction, codes: Seq<i32>) -> PressState {
        PressState { direction, codes, phase: Phase::Waiting, issued: 0, pending: false }
    }

    /// The event of the code at index `i`.
    pub open spec fn event(self, i: int) -> KeyEvent
        recommends
            0 <= i < self.codes.len(),
            is_key_code(self.codes[i] as int),
    {
        KeyEvent { key: translate(self.codes[i] as int), direction: self.direction }
    }

    /// The events of all the codes, in the order of the codes: what a call
    /// issues if every code denotes a key and the mechanism accepts every event.
    pub open spec fn planned(self) -> Seq<KeyEvent> {
        Seq::new(self.codes.len(), |i: int| self.event(i))
    }

    /// The step that follows the report `accepted`. The report speaks of the
    /// pending event: with none pending it says nothing.
    pub open spec fn step(self, accepted: bool) -> PressStep {
        match self.phase {
            Phase::Waiting => PressStep::Acquire,
            Phase::Holding => if self.pending && !accepted {
                PressStep::Finish(Err(InputError::InjectionFailure))
            } else if self.issued >= self.codes.len() {
                PressStep::Finish(Ok(()))
            } else if !is_key_code(self.codes[self.issued as int] as int) {
                PressStep::Finish(Err(InputError::InvalidKeyCode))
            } else {
                PressStep::Inject(self.event(self.issued as int))
            },
            Phase::Over(result) => PressStep::Finish(result),
        }
    }

    /// The state that follows the report `accepted`.
    pub open spec fn after(self, accepted: bool) -> PressState {
        match self.phase {
            Phase::Waiting => PressState { phase: Phase::Holding, ..self },
            Phase::Holding => match self.step(accepted) {
                PressStep::Finish(result) => PressState {
                    phase: Phase::Over(result),
                    pending: false,
                    ..self
                },
                _ => PressState { issued: self.issued + 1, pending: true, ..self },
            },
            Phase::Over(_) => self,
        }
    }
}

/// A key call in progress.
#[derive(Debug)]
pub struct PressCall {
    direction: Direction,
    codes: Vec<i32>,
    phase: Phase,
    issued: usize,
    pending: bool,
}

impl View for PressCall {
    type V = PressState;

    closed spec fn view(&self) -> PressState {
        PressState {
            direction: self.direction,
            codes: self.codes@,
            phase: self.phase,
            issued: self.issued as nat,
            pending: self.pending,
        }
    }
}

impl PressCall {
    /// Starts a call that moves the keys of `codes`, in their order, in `direction`.
    /// The codes are not examined yet: each is checked when its turn comes.
    pub fn new(direction: Direction, codes: Vec<i32>) -> (call: PressCall)
        ensures
            call@ == PressState::fresh(direction, codes@),
    {
        PressCall { direction, codes, phase: Phase::Waiting, issued: 0, pending: false }
    }

    /// Takes the report on the pending event, if there is one, and says what
    /// the call does next. Where nothing is pending, as before the first event,
    /// the report is ignored.
    pub fn advance(&mut self, accepted: bool) -> (step: PressStep)
        ensures
            step == old(self)@.step(accepted),
            final(self)@ == old(self)@.after(accepted),
    {
        match self.phase {
            Phase::Waiting => {
                self.phase = Phase::Holding;
                PressStep::Acquire
            },
            Phase::Holding => {
                let step = self.decide(accepted);
                match step {
                    PressStep::Finish(result) => {
                        self.phase = Phase::Over(result);
                        self.pending = false;
                    },
                    _ => {
                        self.issued = self.issued + 1;
                        self.pending = true;
                    },
                }
                step
            },
            Phase::Over(result) => PressStep::Finish(result),
        }
    }

    /// The step of a call that holds the controller.
    fn decide(&self, accepted: bool) -> (step: PressStep)
        requires
            self@.phase == Phase::Holding,
        ensures
            step == self@.step(accepted),
            !(step is Finish) ==> self@.issued < self@.codes.len() <= usize::MAX,
    {
        if self.pending && !accepted {
            PressStep::Finish(Err(InputError::InjectionFailure))
        } else if self.issued >= self.codes.len() {
            PressStep::Finish(Ok(()))
        } else {
            match try_get_key(self.codes[self.issued]) {
                Ok(key) => PressStep::Inject(KeyEvent { key, direction: self.direction }),
                Err(error) => PressStep::Finish(Err(error)),
            }
        }
    }
}

/// Starts the call that the entry point `press` asks for: `token` names the
/// direction, `codes` the keys. An unknown token ends the call before it begins.
pub fn key_press(token: &str, codes: Vec<i32>) -> (result: Result<PressCall, InputError>)
    ensures
        match direction_of(token@) {
            Some(direction) => result is Ok && result->Ok_0@ == PressState::fresh(
                direction,
                codes@,
            ),
            None => result is Err && result->Err_0 == InputError::InvalidDirection,
        },
{
    match parse_direction(token) {
        Ok(direction) => Ok(PressCall::new(direction, codes)),
        Err(error) => Err(error),
    }
}

/// What a driver has seen of a call.
pub struct Run {
    /// The steps that the call took, in order.
    pub steps: Seq<PressStep>,
    /// The events among those steps, in order.
    pub events: Seq<KeyEvent>,
    /// The result of the call; `None` where the driver stopped before the call
    /// was over.
    pub result: Option<Result<(), InputError>>,
}

impl PressState {
    /// Drives the call from this state on. `accepted` is the report that is due
    /// now, and `answers[i]` is the mechanism's answer to the `i`-th event named
    /// from here on. The driver stops when the call is over, or when it holds
    /// an event and has no answer left to report.
    pub open spec fn run(self, accepted: bool, answers: Seq<bool>) -> Run
        decreases answers.len(), (if self.phase is Waiting { 1nat } else { 0nat }),
    {
        match self.step(accepted) {
            PressStep::Acquire => {
                let rest = self.after(accepted).run(accepted, answers);
                Run { steps: seq![PressStep::Acquire] + rest.steps, ..rest }
            },
            PressStep::Inject(event) => if answers.len() == 0 {
                Run { steps: seq![PressStep::Inject(event)], events: seq![event], result: None }
            } else {
                let rest = self.after(accepted).run(answers[0], answers.drop_first());
                Run {
                    steps: seq![PressStep::Inject(event)] + rest.steps,
                    events: seq![event] + rest.events,
                    result: rest.result,
                }
            },
            PressStep::Finish(result) => Run {
                steps: seq![PressStep::Finish(result)],
                events: Seq::empty(),
                result: Some(result),
            },
        }
    }

    /// Whether the first `n` codes all denote keys.
    pub open spec fn codes_valid_up_to(self, n: int) -> bool {
        forall|i: int| 0 <= i < n ==> is_key_code(#[trigger] self.codes[i] as int)
    }
}

/// Whether the first `n` answers are all acceptances.
pub open spec fn accepted_up_to(answers: Seq<bool>, n: int) -> bool {
    forall|i: int| 0 <= i < n ==> #[trigger] answers[i]
}

/// The steps of a call that holds the controller, issues `events` and ends
/// with `result`, if it ends.
pub open spec fn holding_steps(
    events: Seq<KeyEvent>,
    result: Option<Result<(), InputError>>,
) -> Seq<PressStep> {
    events.map_values(|event: KeyEvent| PressStep::Inject(event)) + match result {
        Some(result) => seq![PressStep::Finish(result)],
        None => Seq::empty(),
    }
}

/// The steps of one critical section: the controller is taken, `events` are
/// issued, and the controller is given up with `result`, if the call got that far.
pub open spec fn section(
    events: Seq<KeyEvent>,
    result: Option<Result<(), InputError>>,
) -> Seq<PressStep> {
    seq![PressStep::Acquire] + holding_steps(events, result)
}

/// The shape of every run of a call that holds the controller: how far it
/// gets, what it names on the way, and how it ends.
proof fn lemma_run_shape(state: PressState, accepted: bool, answers: Seq<bool>)
    requires
        state.phase == Phase::Holding,
        state.issued <= state.codes.len(),
    ensures
        ({
            let run = state.run(accepted, answers);
            let from = state.issued as int;
            let count = run.events.len() as int;
            &&& run.steps == holding_steps(run.events, run.result)
            &&& if state.pending && !accepted {
                count == 0 && run.result == Some(
                    Err::<(), InputError>(InputError::InjectionFailure),
                )
            } else {
                &&& from + count <= state.codes.len()
                &&& count <= answers.len() + 1
                &&& forall|k: int|
                    0 <= k < count ==> is_key_code(#[trigger] state.codes[from + k] as int)
                &&& forall|k: int|
                    0 <= k < count ==> #[trigger] run.events[k] == state.event(from + k)
                &&& accepted_up_to(answers, count - 1)
                &&& match run.result {
                    None => count == answers.len() + 1,
                    Some(Ok(_)) => {
                        &&& from + count == state.codes.len()
                        &&& count >= 1 ==> count <= answers.len() && answers[count - 1]
                    },
                    Some(Err(InputError::InvalidKeyCode)) => {
                        &&& from + count < state.codes.len()
                        &&& !is_key_code(state.codes[from + count] as int)
                        &&& count >= 1 ==> count <= answers.len() && answers[count - 1]
                    },
                    Some(Err(InputError::InjectionFailure)) => {
                        &&& 1 <= count <= answers.len()
                        &&& !answers[count - 1]
                    },
                    Some(Err(InputError::InvalidDirection)) => false,
                }
            }
        }),
    decreases answers.len(),
{
    let run = state.run(accepted, answers);
    match state.step(accepted) {
        PressStep::Inject(event) => {
            if answers.len() > 0 {
                let next = state.after(accepted);
                let rest = next.run(answers[0], answers.drop_first());
                lemma_run_shape(next, answers[0], answers.drop_first());
                assert(run.events == seq![event] + rest.events);
                assert(run.steps =~= holding_steps(run.events, run.result));
                if answers[0] {
                    let from = state.issued as int;
                    let count = run.events.len() as int;
                    assert forall|k: int| 0 <= k < count implies is_key_code(
                        #[trigger] state.codes[from + k] as int,
                    ) by {
                        if k > 0 {
                            assert(state.codes[from + k] == next.codes[next.issued + (k - 1)]);
                        }
                    }
                    assert forall|k: int| 0 <= k < count implies #[trigger] run.events[k]
                        == state.event(from + k) by {
                        if k > 0 {
                            assert(run.events[k] == rest.events[k - 1]);
                            assert(next.event(next.issued + (k - 1)) == state.event(from + k));
                        }
                    }
                    assert forall|k: int| 0 <= k < count - 1 implies #[trigger] answers[k] by {
                        if k > 0 {
                            assert(answers[k] == answers.drop_first()[k - 1]);
                        }
                    }
                    if 2 <= count <= answers.len() {
                        assert(answers[count - 1] == answers.drop_first()[count - 2]);
                    }
                }
            } else {
                assert(run.steps =~= holding_steps(run.events, run.result));
            }
        },
        _ => {
            assert(run.steps =~= holding_steps(run.events, run.result));
        },
    }
}

/// A call is one critical section. It takes the controller once, before
/// anything else; every event lies between that step and the step that gives
/// the controller up; and that step, which carries the result, is the last.
pub proof fn run_is_one_section(direction: Direction, codes: Seq<i32>, answers: Seq<bool>)
    ensures
        ({
            let run = PressState::fresh(direction, codes).run(true, answers);
            run.steps == section(run.events, run.result)
        }),
{
    let call = PressState::fresh(direction, codes);
    lemma_run_shape(call.after(true), true, answers);
}

/// Order is preserved. Whatever the codes and whatever the mechanism answers,
/// the events of a call are the events of its first codes, one for one and in
/// the order of the codes; every one of those codes denotes a key, and every
/// event but the last was accepted.
pub proof fn run_follows_codes(direction: Direction, codes: Seq<i32>, answers: Seq<bool>)
    ensures
        ({
            let call = PressState::fresh(direction, codes);
            let run = call.run(true, answers);
            &&& run.events.len() <= codes.len()
            &&& run.events == call.planned().take(run.events.len() as int)
            &&& call.codes_valid_up_to(run.events.len() as int)
            &&& accepted_up_to(answers, run.events.len() - 1)
        }),
{
    let call = PressState::fresh(direction, codes);
    let run = call.run(true, answers);
    lemma_run_shape(call.after(true), true, answers);
    assert forall|i: int| 0 <= i < run.events.len() implies is_key_code(
        #[trigger] codes[i] as int,
    ) by {
        assert(is_key_code(call.codes[0 + i] as int));
    }
    assert forall|i: int| 0 <= i < run.events.len() implies #[trigger] run.events[i]
        == call.planned()[i] by {
        assert(run.events[i] == call.after(true).event(0 + i));
    }
    assert(run.events =~= call.planned().take(run.events.len() as int));
}

/// A call ends for one reason only. It succeeds only after the last code; it
/// reports an invalid code only where the code that follows the events issued
/// is invalid; it reports an injection failure only where the mechanism
/// refused the last event issued; and it is still under way only where the
/// last event issued has no answer yet.
pub proof fn run_ends_for_a_reason(direction: Direction, codes: Seq<i32>, answers: Seq<bool>)
    ensures
        ({
            let run = PressState::fresh(direction, codes).run(true, answers);
            let count = run.events.len() as int;
            match run.result {
                None => count == answers.len() + 1,
                Some(Ok(_)) => {
                    &&& count == codes.len()
                    &&& count <= answers.len()
                    &&& accepted_up_to(answers, count)
                },
                Some(Err(InputError::InvalidKeyCode)) => {
                    &&& count < codes.len()
                    &&& !is_key_code(codes[count] as int)
                    &&& count <= answers.len()
                    &&& accepted_up_to(answers, count)
                },
                Some(Err(InputError::InjectionFailure)) => {
                    &&& 1 <= count <= answers.len()
                    &&& !answers[count - 1]
                },
                Some(Err(InputError::InvalidDirection)) => false,
            }
        }),
{
    let call = PressState::fresh(direction, codes);
    lemma_run_shape(call.after(true), true, answers);
    let count = call.run(true, answers).events.len() as int;
    assert(call.codes[0 + count] == codes[count]);
}

/// Where every code denotes a key and the mechanism accepts every event, the
/// call succeeds, and has issued the events of all the codes, in their order.
/// A call without codes is such a call: it succeeds and issues nothing.
pub proof fn run_succeeds(direction: Direction, codes: Seq<i32>, answers: Seq<bool>)
    requires
        PressState::fresh(direction, codes).codes_valid_up_to(codes.len() as int),
        codes.len() <= answers.len(),
        accepted_up_to(answers, codes.len() as int),
    ensures
        ({
            let call = PressState::fresh(direction, codes);
            let run = call.run(true, answers);
            &&& run.result == Some(Ok::<(), InputError>(()))
            &&& run.events == call.planned()
        }),
{
    let call = PressState::fresh(direction, codes);
    let run = call.run(true, answers);
    run_follows_codes(direction, codes, answers);
    run_ends_for_a_reason(direction, codes, answers);
    let count = run.events.len() as int;
    if count < codes.len() {
        assert(is_key_code(codes[count] as int));
    }
    if 1 <= count <= answers.len() {
        assert(answers[count - 1]);
    }
    assert(call.planned().take(codes.len() as int) =~= call.planned());
    assert(run.result->Some_0->Ok_0 == ());
}

/// Where the code at index `bad` is the first that denotes no key, and the
/// mechanism accepts the events before it, the call fails with
/// [`InputError::InvalidKeyCode`]. The events of the codes before `bad` have
/// been issued, and stay issued; no code after `bad` is looked at.
pub proof fn run_stops_at_invalid_code(
    direction: Direction,
    codes: Seq<i32>,
    answers: Seq<bool>,
    bad: int,
)
    requires
        0 <= bad < codes.len(),
        PressState::fresh(direction, codes).codes_valid_up_to(bad),
        !is_key_code(codes[bad] as int),
        bad <= answers.len(),
        accepted_up_to(answers, bad),
    ensures
        ({
            let call = PressState::fresh(direction, codes);
            let run = call.run(true, answers);
            &&& run.result == Some(Err::<(), InputError>(InputError::InvalidKeyCode))
            &&& run.events == call.planned().take(bad)
        }),
{
    let call = PressState::fresh(direction, codes);
    let run = call.run(true, answers);
    run_follows_codes(direction, codes, answers);
    run_ends_for_a_reason(direction, codes, answers);
    let count = run.events.len() as int;
    if count > bad {
        assert(is_key_code(call.codes[bad] as int));
    }
    if count < bad {
        assert(is_key_code(codes[count] as int));
    }
    if 1 <= count <= bad {
        assert(answers[count - 1]);
    }
}

/// Where the mechanism refuses the event at index `refusal`, having accepted
/// those before it, and the codes up to that one denote keys, the call fails
/// with [`InputError::InjectionFailure`] at once: the refused event is the last
/// one issued.
pub proof fn run_stops_at_refusal(
    direction: Direction,
    codes: Seq<i32>,
    answers: Seq<bool>,
    refusal: int,
)
    requires
        0 <= refusal < codes.len(),
        refusal < answers.len(),
        PressState::fresh(direction, codes).codes_valid_up_to(refusal + 1),
        accepted_up_to(answers, refusal),
        !answers[refusal],
    ensures
        ({
            let call = PressState::fresh(direction, codes);
            let run = call.run(true, answers);
            &&& run.result == Some(Err::<(), InputError>(InputError::InjectionFailure))
            &&& run.events == call.planned().take(refusal + 1)
        }),
{
    let call = PressState::fresh(direction, codes);
    let run = call.run(true, answers);
    run_follows_codes(direction, codes, answers);
    run_ends_for_a_reason(direction, codes, answers);
    let count = run.events.len() as int;
    if count <= refusal {
        assert(is_key_code(codes[count] as int));
        if count >= 1 {
            assert(answers[count - 1]);
        }
    }
    if count > refusal + 1 {
        assert(answers[refusal]);
    }
}

/// A report says nothing where no event is pending: the call goes on as it
/// would have gone on with the other report. So it is with the first report
/// of every call.
pub proof fn idle_report_is_ignored(state: PressState, answers: Seq<bool>)
    requires
        !state.pending,
    ensures
        state.step(true) == state.step(false),
        state.after(true) == state.after(false),
        state.run(true, answers) == state.run(false, answers),
{
    if state.phase is Waiting {
        let next = state.after(true);
        assert(next.run(true, answers) == next.run(false, answers));
    }
}

/// A call that is over stays over. Once a step is `Finish`, every later step
/// is the same `Finish`, whatever is reported, and the state no longer changes:
/// a failed call is not resumed, and a finished one issues nothing more.
pub proof fn finished_stays_finished(state: PressState, accepted: bool, later: bool)
    requires
        state.step(accepted) is Finish,
    ensures
        state.after(accepted).step(later) == state.step(accepted),
        state.after(accepted).after(later) == state.after(accepted),
{
}

} // verus!
