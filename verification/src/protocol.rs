//! The protected write as a state machine.
//!
//! A [`ProtectedWrite`] never touches hardware.  It names the one action
//! that is due, a driver performs it and reports the outcome, and the
//! machine moves on: mask interrupts, write the change-enable word, burn a
//! cycle, write the committing word, restore the interrupt flag that was
//! found.  The same machine drives the in-memory device of this crate and a
//! driver on real hardware.

use crate::divisor::{ClockDivisor, InvalidDivisor};
use crate::register::{commit_word, spec_commit_word, CHANGE_ENABLE};
use vstd::prelude::*;

verus! {

/// Whether global interrupts were enabled when a critical section was
/// entered.  The driver obtains it by masking interrupts and hands it back
/// unchanged to leave the section.
#[derive(Clone, Copy, Debug, PartialEq, Eq, Structural)]
pub struct InterruptState {
    pub enabled: bool,
}

/// One step that a driver performs on the hardware.
#[derive(Clone, Copy, Debug, PartialEq, Eq, Structural)]
pub enum Action {
    /// Clear the global interrupt flag and report what it was.
    DisableInterrupts,
    /// Store a word in the prescaler register.
    Write(u8),
    /// Let one cycle pass.
    Delay,
    /// Put the global interrupt flag back to the given state.
    RestoreInterrupts(InterruptState),
}

/// What a driver reports after it performed an action.
#[derive(Clone, Copy, Debug, PartialEq, Eq, Structural)]
pub enum Event {
    /// Interrupts are masked now; this is the state they were in.
    InterruptsWere(InterruptState),
    /// The write, the delay or the restore is done.
    Completed,
}

/// How far a protected write has come.  From `Guarded` to `Applied` the
/// phase carries the interrupt state that is owed back.
#[derive(Clone, Copy, Debug, PartialEq, Eq, Structural)]
pub enum Phase {
    /// Nothing has been done.
    Idle,
    /// Interrupts are masked.
    Guarded(InterruptState),
    /// The change-enable word is in the register.
    ChangePending(InterruptState),
    /// The stabilization cycle has passed.
    Stabilized(InterruptState),
    /// The select code is committed.
    Applied(InterruptState),
    /// The interrupt flag is restored; nothing is left to do.
    Released,
}

impl Event {
    /// Whether this event is the outcome of `action`: masking interrupts
    /// yields their former state, everything else just completes.
    pub open spec fn answers(self, action: Action) -> bool {
        action is DisableInterrupts <==> self is InterruptsWere
    }
}

impl Phase {
    /// The action that is due in this phase of a write of `divisor`.
    pub open spec fn pending(self, divisor: ClockDivisor) -> Option<Action> {
        match self {
            Phase::Idle => Some(Action::DisableInterrupts),
            Phase::Guarded(_) => Some(Action::Write(CHANGE_ENABLE)),
            Phase::ChangePending(_) => Some(Action::Delay),
            Phase::Stabilized(_) => Some(Action::Write(spec_commit_word(divisor))),
            Phase::Applied(prior) => Some(Action::RestoreInterrupts(prior)),
            Phase::Released => None,
        }
    }

    /// The phase that follows once the driver reports `event`.  A report
    /// that does not answer the action due leaves the phase as it is.
    pub open spec fn after(self, event: Event) -> Phase {
        match (self, event) {
            (Phase::Idle, Event::InterruptsWere(prior)) => Phase::Guarded(prior),
            (Phase::Guarded(prior), Event::Completed) => Phase::ChangePending(prior),
            (Phase::ChangePending(prior), Event::Completed) => Phase::Stabilized(prior),
            (Phase::Stabilized(prior), Event::Completed) => Phase::Applied(prior),
            (Phase::Applied(_), Event::Completed) => Phase::Released,
            _ => self,
        }
    }

    /// How many actions are still due.
    pub open spec fn remaining(self) -> nat {
        match self {
            Phase::Idle => 5,
            Phase::Guarded(_) => 4,
            Phase::ChangePending(_) => 3,
            Phase::Stabilized(_) => 2,
            Phase::Applied(_) => 1,
            Phase::Released => 0,
        }
    }

    /// The interrupt state that this phase owes back, where it holds one.
    pub open spec fn owed(self) -> Option<InterruptState> {
        match self {
            Phase::Guarded(prior)
            | Phase::ChangePending(prior)
            | Phase::Stabilized(prior)
            | Phase::Applied(prior) => Some(prior),
            Phase::Idle | Phase::Released => None,
        }
    }

    /// Whether interrupts are held masked in this phase.
    pub open spec fn in_window(self) -> bool {
        self.owed() is Some
    }
}

/// The outcome that a driver reports for `action` when it performs it with
/// the interrupt flag in state `prior`.
pub open spec fn outcome(action: Action, prior: InterruptState) -> Event {
    match action {
        Action::DisableInterrupts => Event::InterruptsWere(prior),
        _ => Event::Completed,
    }
}

/// The actions that are issued from `phase` on, in order, to a driver that
/// performs each and found the interrupt flag in state `prior`.
pub open spec fn script(phase: Phase, divisor: ClockDivisor, prior: InterruptState) -> Seq<Action>
    decreases phase.remaining(),
{
    match phase.pending(divisor) {
        Some(action) => seq![action] + script(
            phase.after(outcome(action, prior)),
            divisor,
            prior,
        ),
        None => Seq::empty(),
    }
}

/// The number of actions that make up a complete write.
pub const WRITE_STEPS: usize = 5;

/// One protected write of a validated divisor.
pub struct ProtectedWrite {
    divisor: ClockDivisor,
    phase: Phase,
}

impl ProtectedWrite {
    /// The divisor being written.
    pub closed spec fn spec_divisor(&self) -> ClockDivisor {
        self.divisor
    }

    /// The phase reached.
    pub closed spec fn spec_phase(&self) -> Phase {
        self.phase
    }

    /// Validates `requested` and, where it is a legal factor, starts a write
    /// of it.  Nothing has been asked of the hardware yet.
    pub fn begin(requested: u32) -> (result: Result<ProtectedWrite, InvalidDivisor>)
        ensures
            match ClockDivisor::of_factor(requested) {
                Some(d) => result matches Ok(write) && write.spec_divisor() == d
                    && write.spec_phase() == Phase::Idle,
                None => result matches Err(e) && e.requested == requested,
            },
    {
        match ClockDivisor::new(requested) {
            Ok(divisor) => Ok(ProtectedWrite { divisor, phase: Phase::Idle }),
            Err(e) => Err(e),
        }
    }

    /// The divisor being written.
    #[verifier::when_used_as_spec(spec_divisor)]
    pub fn divisor(&self) -> (divisor: ClockDivisor)
        ensures
            divisor == self.spec_divisor(),
    {
        self.divisor
    }

    /// The phase reached.
    #[verifier::when_used_as_spec(spec_phase)]
    pub fn phase(&self) -> (phase: Phase)
        ensures
            phase == self.spec_phase(),
    {
        self.phase
    }

    /// The action that the driver has to perform now, or `None` once the
    /// write is complete.
    pub fn pending(&self) -> (action: Option<Action>)
        ensures
            action == self.spec_phase().pending(self.spec_divisor()),
    {
        match self.phase {
            Phase::Idle => Some(Action::DisableInterrupts),
            Phase::Guarded(_) => Some(Action::Write(CHANGE_ENABLE)),
            Phase::ChangePending(_) => Some(Action::Delay),
            Phase::Stabilized(_) => Some(Action::Write(commit_word(self.divisor))),
            Phase::Applied(prior) => Some(Action::RestoreInterrupts(prior)),
            Phase::Released => None,
        }
    }

    /// Takes the outcome of the action that was due and moves on to the
    /// next phase.  A report that does not answer that action is ignored.
    pub fn report(&mut self, event: Event)
        ensures
            final(self).spec_phase() == old(self).spec_phase().after(event),
            final(self).spec_divisor() == old(self).spec_divisor(),
    {
        let next = match (self.phase, event) {
            (Phase::Idle, Event::InterruptsWere(prior)) => Phase::Guarded(prior),
            (Phase::Guarded(prior), Event::Completed) => Phase::ChangePending(prior),
            (Phase::ChangePending(prior), Event::Completed) => Phase::Stabilized(prior),
            (Phase::Stabilized(prior), Event::Completed) => Phase::Applied(prior),
            (Phase::Applied(_), Event::Completed) => Phase::Released,
            (phase, _) => phase,
        };
        self.phase = next;
    }
}

/// An answered action brings the write one step closer to its end and
/// keeps the interrupt state that is owed; any other report changes
/// nothing.
pub proof fn lemma_report_advances(phase: Phase, divisor: ClockDivisor, event: Event)
    ensures
        match phase.pending(divisor) {
            Some(action) if event.answers(action) => {
                &&& phase.after(event).remaining() + 1 == phase.remaining()
                &&& phase.in_window() && phase.after(event).in_window() ==> phase.after(
                    event,
                ).owed() == phase.owed()
            },
            _ => phase.after(event) == phase,
        },
{
}

/// From start to end a protected write issues five actions: it masks
/// interrupts, writes the change-enable word, lets a cycle pass, writes the
/// committing word of its divisor and restores the interrupt state that the
/// driver reported.
pub proof fn lemma_script_of_write(divisor: ClockDivisor, prior: InterruptState)
    ensures
        script(Phase::Idle, divisor, prior) == seq![
            Action::DisableInterrupts,
            Action::Write(CHANGE_ENABLE),
            Action::Delay,
            Action::Write(spec_commit_word(divisor)),
            Action::RestoreInterrupts(prior),
        ],
        Phase::Idle.remaining() == WRITE_STEPS,
{
    reveal_with_fuel(script, 6);
    assert(script(Phase::Idle, divisor, prior) =~= seq![
        Action::DisableInterrupts,
        Action::Write(CHANGE_ENABLE),
        Action::Delay,
        Action::Write(spec_commit_word(divisor)),
        Action::RestoreInterrupts(prior),
    ]);
}

} // verus!
