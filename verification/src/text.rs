//! Typing a text as one call.
//!
//! The text goes to the injection mechanism whole, in a single injection: how
//! it becomes key events is the mechanism's business. The call takes the
//! controller, names that one injection, and gives the controller up with the
//! mechanism's answer as its result. A text without characters needs no
//! injection, and its call succeeds without one.

use vstd::prelude::*;
use crate::call::Phase;
use crate::error::InputError;

verus! {

/// What a text call does next.
#[derive(Debug, PartialEq, Eq)]
pub enum TextStep {
    /// Wait for exclusive access to the input controller, and keep it.
    Acquire,
    /// Hand this text to the injection mechanism, and report its answer.
    Inject(String),
    /// Give the controller up: the call is over, with this result.
    Finish(Result<(), InputError>),
}

/// A step of a text call, as contracts see it.
pub enum TextStepView {
    Acquire,
    Inject(Seq<char>),
    Finish(Result<(), InputError>),
}

impl View for TextStep {
    type V = TextStepView;

    open spec fn view(&self) -> TextStepView {
        match *self {
            TextStep::Acquire => TextStepView::Acquire,
            TextStep::Inject(text) => TextStepView::Inject(text@),
            TextStep::Finish(result) => TextStepView::Finish(result),
        }
    }
}

/// The state of a text call, as contracts see it.
pub struct TextState {
    /// The text of the call.
    pub text: Seq<char>,
    pub phase: Phase,
    /// Whether the call has named its injection.
    pub issued: bool,
    /// Whether the injection, named, still waits for the mechanism's answer.
    pub pending: bool,
}

impl TextState {
    /// The state of a call that has not taken a step yet.
    pub open spec fn fresh(text: Seq<char>) -> TextState {
        TextState { text, phase: Phase::Waiting, issued: false, pending: false }
    }

    /// The step that follows the report `accepted`. The report speaks of the
    /// pending injection: with none pending it says nothing.
    pub open spec fn step(self, accepted: bool) -> TextStepView {
        match self.phase {
            Phase::Waiting => TextStepView::Acquire,
            Phase::Holding => if self.pending && !accepted {
                TextStepView::Finish(Err(InputError::InjectionFailure))
            } else if self.issued || self.text.len() == 0 {
                TextStepView::Finish(Ok(()))
            } else {
                TextStepView::Inject(self.text)
            },
            Phase::Over(result) => TextStepView::Finish(result),
        }
    }

    /// The state that follows the report `accepted`.
    pub open spec fn after(self, accepted: bool) -> TextState {
        match self.phase {
            Phase::Waiting => TextState { phase: Phase::Holding, ..self },
            Phase::Holding => match self.step(accepted) {
                TextStepView::Finish(result) => TextState {
                    phase: Phase::Over(result),
                    pending: false,
                    ..self
                },
                _ => TextState { issued: true, pending: true, ..self },
            },
            Phase::Over(_) => self,
        }
    }
}

/// A text call in progress.
#[derive(Debug)]
pub struct TextCall {
    text: String,
    phase: Phase,
    issued: bool,
    pending: bool,
}

impl View for TextCall {
    type V = TextState;

    closed spec fn view(&self) -> TextState {
        TextState {
            text: self.text@,
            phase: self.phase,
            issued: self.issued,
            pending: self.pending,
        }
    }
}

impl TextCall {
    /// Takes the report on the pending injection, if it is pending, and says
    /// what the call does next. Where nothing is pending, as before the
    /// injection, the report is ignored.
    pub fn advance(&mut self, accepted: bool) -> (step: TextStep)
        ensures
            step@ == old(self)@.step(accepted),
            final(self)@ == old(self)@.after(accepted),
    {
        match self.phase {
            Phase::Waiting => {
                self.phase = Phase::Holding;
                TextStep::Acquire
            },
            Phase::Holding => {
                if self.pending && !accepted {
                    self.end(Err(InputError::InjectionFailure))
                } else if self.issued || self.text.as_str().is_empty() {
                    self.end(Ok(()))
                } else {
                    self.issued = true;
                    self.pending = true;
                    TextStep::Inject(self.text.clone())
                }
            },
            Phase::Over(result) => TextStep::Finish(result),
        }
    }

    /// Ends the call with `result`.
    fn end(&mut self, result: Result<(), InputError>) -> (step: TextStep)
        ensures
            step == TextStep::Finish(result),
            final(self)@ == (TextState {
                phase: Phase::Over(result),
                pending: false,
                ..old(self)@
            }),
    {
        self.phase = Phase::Over(result);
        self.pending = false;
        TextStep::Finish(result)
    }
}

/// Starts the call that the entry point `type` asks for: `text` is typed as it is.
pub fn key_type(text: String) -> (call: TextCall)
    ensures
        call@ == TextState::fresh(text@),
{
    TextCall { text, phase: Phase::Waiting, issued: false, pending: false }
}

/// A text call is one critical section with at most one injection. It takes
/// the controller first. Then a text with characters is handed out whole, and
/// the mechanism's answer to it is the result of the call; a text without
/// characters is not handed out, and the call succeeds. The step that carries
/// the result gives the controller up.
pub proof fn text_is_injected_once(text: Seq<char>, answer: bool)
    ensures
        ({
            let call = TextState::fresh(text);
            let held = call.after(true);
            let result: Result<(), InputError> = if answer {
                Ok(())
            } else {
                Err(InputError::InjectionFailure)
            };
            &&& call.step(true) == TextStepView::Acquire
            &&& text.len() == 0 ==> held.step(true) == TextStepView::Finish(Ok(()))
            &&& text.len() > 0 ==> held.step(true) == TextStepView::Inject(text)
            &&& text.len() > 0 ==> held.after(true).step(answer) == TextStepView::Finish(result)
        }),
{
}

/// A report says nothing where no injection is pending: the call goes on as
/// it would have gone on with the other report.
pub proof fn idle_report_is_ignored(state: TextState)
    requires
        !state.pending,
    ensures
        state.step(true) == state.step(false),
        state.after(true) == state.after(false),
{
}

/// A call that is over stays over. Once a step is `Finish`, every later step
/// is the same `Finish`, whatever is reported, and the state no longer changes:
/// the text is not handed out a second time.
pub proof fn finished_stays_finished(state: TextState, accepted: bool, later: bool)
    requires
        state.step(accepted) is Finish,
    ensures
        state.after(accepted).step(later) == state.step(accepted),
        state.after(accepted).after(later) == state.after(accepted),
{
}

} // verus!
