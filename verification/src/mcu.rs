//! An in-memory microcontroller.
//!
//! [`Mcu`] stands in for the device on a development host.  It holds the
//! prescaler register as a plain byte cell, the global interrupt flag and
//! at most one interrupt request that is waiting for the flag, and it
//! records every operation in the order in which it happened.

use crate::divisor::ClockDivisor;
use crate::protocol::{outcome, Action, Event, InterruptState, Phase, ProtectedWrite};
use vstd::prelude::*;

verus! {

/// One entry of the record that the device keeps.
#[derive(Clone, Copy, Debug, PartialEq, Eq, Structural)]
pub enum Record {
    /// The global interrupt flag was cleared.
    Masked,
    /// The global interrupt flag was put back to this state.
    Restored(InterruptState),
    /// The register was read and held this word.
    Read(u8),
    /// This word was stored in the register.
    Write(u8),
    /// One cycle was burnt.
    Delay,
    /// An interrupt request arrived while interrupts were masked and was
    /// held back.
    Deferred,
    /// An interrupt handler ran and found this word in the register.
    Delivered(u8),
}

/// The state of the device as contracts see it.
pub struct McuState {
    /// The word stored in the prescaler register.
    pub register: u8,
    /// The global interrupt flag.
    pub interrupts_enabled: bool,
    /// Whether an interrupt request is held back.
    pub pending: bool,
    /// Everything that happened to the device, oldest first.
    pub trace: Seq<Record>,
}

impl McuState {
    /// A device that holds `register`, with the interrupt flag in state
    /// `interrupts`, to which nothing has happened yet.
    pub open spec fn initial(register: u8, interrupts: InterruptState) -> McuState {
        McuState {
            register,
            interrupts_enabled: interrupts.enabled,
            pending: false,
            trace: Seq::empty(),
        }
    }

    /// The interrupt flag as a state that can be restored later.
    pub open spec fn interrupt_state(self) -> InterruptState {
        InterruptState { enabled: self.interrupts_enabled }
    }

    /// One bus read: the register keeps its word.
    pub open spec fn read(self) -> McuState {
        McuState { trace: self.trace.push(Record::Read(self.register)), ..self }
    }

    /// One bus write: the register holds `word` from now on.
    pub open spec fn write(self, word: u8) -> McuState {
        McuState { register: word, trace: self.trace.push(Record::Write(word)), ..self }
    }

    /// One cycle passes.
    pub open spec fn delay(self) -> McuState {
        McuState { trace: self.trace.push(Record::Delay), ..self }
    }

    /// The interrupt flag is cleared.
    pub open spec fn disable(self) -> McuState {
        McuState { interrupts_enabled: false, trace: self.trace.push(Record::Masked), ..self }
    }

    /// The interrupt flag is put back to `state`.  Where that enables
    /// interrupts while a request is held back, its handler runs at once.
    pub open spec fn restore(self, state: InterruptState) -> McuState {
        let restored = self.trace.push(Record::Restored(state));
        if state.enabled && self.pending {
            McuState {
                interrupts_enabled: true,
                pending: false,
                trace: restored.push(Record::Delivered(self.register)),
                ..self
            }
        } else {
            McuState { interrupts_enabled: state.enabled, trace: restored, ..self }
        }
    }

    /// An interrupt request arrives.  With interrupts enabled its handler
    /// runs at once; otherwise the request is held back.
    pub open spec fn request(self) -> McuState {
        if self.interrupts_enabled {
            McuState { trace: self.trace.push(Record::Delivered(self.register)), ..self }
        } else {
            McuState { pending: true, trace: self.trace.push(Record::Deferred), ..self }
        }
    }

    /// The device after a driver performed `action` on it.
    pub open spec fn perform(self, action: Action) -> McuState {
        match action {
            Action::DisableInterrupts => self.disable(),
            Action::Write(word) => self.write(word),
            Action::Delay => self.delay(),
            Action::RestoreInterrupts(state) => self.restore(state),
        }
    }

    /// What the driver reports when it performs `action` on this device.
    pub open spec fn response(self, action: Action) -> Event {
        outcome(action, self.interrupt_state())
    }
}

/// The words written to the register according to `trace`, oldest first.
pub open spec fn writes_of(trace: Seq<Record>) -> Seq<u8>
    decreases trace.len(),
{
    if trace.len() == 0 {
        Seq::empty()
    } else {
        let earlier = writes_of(trace.drop_last());
        match trace.last() {
            Record::Write(word) => earlier.push(word),
            _ => earlier,
        }
    }
}

/// The device and the phase of a write of `divisor` after a driver took up
/// to `steps` further actions from the protocol, performed each on the
/// device and reported its outcome.
pub open spec fn drive(device: McuState, divisor: ClockDivisor, phase: Phase, steps: nat) -> (
    McuState,
    Phase,
)
    decreases steps,
{
    match phase.pending(divisor) {
        Some(action) if steps > 0 => drive(
            device.perform(action),
            divisor,
            phase.after(device.response(action)),
            (steps - 1) as nat,
        ),
        _ => (device, phase),
    }
}

/// The in-memory device.
#[derive(Debug)]
pub struct Mcu {
    register: u8,
    interrupts_enabled: bool,
    pending: bool,
    trace: Vec<Record>,
}

impl View for Mcu {
    type V = McuState;

    closed spec fn view(&self) -> McuState {
        McuState {
            register: self.register,
            interrupts_enabled: self.interrupts_enabled,
            pending: self.pending,
            trace: self.trace@,
        }
    }
}

impl Mcu {
    /// A device whose register holds `register`, with the interrupt flag in
    /// state `interrupts`.
    pub fn new(register: u8, interrupts: InterruptState) -> (mcu: Mcu)
        ensures
            mcu@ == McuState::initial(register, interrupts),
    {
        Mcu { register, interrupts_enabled: interrupts.enabled, pending: false, trace: Vec::new() }
    }

    /// The word stored in the register, looked at from outside: no bus
    /// transaction takes place and nothing is recorded.
    pub fn register(&self) -> (word: u8)
        ensures
            word == self@.register,
    {
        self.register
    }

    /// Whether global interrupts are enabled.
    pub fn interrupts_enabled(&self) -> (enabled: bool)
        ensures
            enabled == self@.interrupts_enabled,
    {
        self.interrupts_enabled
    }

    /// Whether an interrupt request is held back.
    pub fn interrupt_pending(&self) -> (pending: bool)
        ensures
            pending == self@.pending,
    {
        self.pending
    }

    /// Everything that happened to the device, oldest first.
    pub fn trace(&self) -> (trace: &Vec<Record>)
        ensures
            trace@ == self@.trace,
    {
        &self.trace
    }

    /// The words that were written to the register, oldest first.
    pub fn writes(&self) -> (words: Vec<u8>)
        ensures
            words@ == writes_of(self@.trace),
    {
        let mut words: Vec<u8> = Vec::new();
        let mut i: usize = 0;
        while i < self.trace.len()
            invariant
                i <= self.trace.len(),
                words@ == writes_of(self.trace@.take(i as int)),
            decreases self.trace.len() - i,
        {
            proof {
                assert(self.trace@.take(i + 1).drop_last() == self.trace@.take(i as int));
            }
            match self.trace[i] {
                Record::Write(word) => {
                    words.push(word);
                },
                _ => {},
            }
            i += 1;
        }
        proof {
            assert(self.trace@.take(i as int) == self.trace@);
        }
        words
    }

    /// Reads the register over the bus.
    pub fn read(&mut self) -> (word: u8)
        ensures
            word == old(self)@.register,
            final(self)@ == old(self)@.read(),
    {
        self.trace.push(Record::Read(self.register));
        self.register
    }

    /// Writes `word` to the register over the bus.
    pub fn write(&mut self, word: u8)
        ensures
            final(self)@ == old(self)@.write(word),
    {
        self.register = word;
        self.trace.push(Record::Write(word));
    }

    /// Burns one cycle.
    pub fn delay(&mut self)
        ensures
            final(self)@ == old(self)@.delay(),
    {
        self.trace.push(Record::Delay);
    }

    /// Clears the global interrupt flag and returns the state it was in.
    pub fn disable_interrupts(&mut self) -> (prior: InterruptState)
        ensures
            prior == old(self)@.interrupt_state(),
            final(self)@ == old(self)@.disable(),
    {
        let prior = InterruptState { enabled: self.interrupts_enabled };
        self.interrupts_enabled = false;
        self.trace.push(Record::Masked);
        prior
    }

    /// Puts the global interrupt flag back to `state`.  A request that was
    /// held back is delivered at once where that enables interrupts.
    pub fn restore_interrupts(&mut self, state: InterruptState)
        ensures
            final(self)@ == old(self)@.restore(state),
    {
        self.interrupts_enabled = state.enabled;
        self.trace.push(Record::Restored(state));
        if state.enabled && self.pending {
            self.pending = false;
            self.trace.push(Record::Delivered(self.register));
        }
    }

    /// Simulates an interrupt request.  Its handler runs at once where
    /// interrupts are enabled; otherwise the request is held back until
    /// they are.
    pub fn raise_interrupt(&mut self)
        ensures
            final(self)@ == old(self)@.request(),
    {
        if self.interrupts_enabled {
            self.trace.push(Record::Delivered(self.register));
        } else {
            self.pending = true;
            self.trace.push(Record::Deferred);
        }
    }

    /// Performs one action of a protected write and reports its outcome.
    pub fn perform(&mut self, action: Action) -> (event: Event)
        ensures
            final(self)@ == old(self)@.perform(action),
            event == old(self)@.response(action),
            event.answers(action),
    {
        match action {
            Action::DisableInterrupts => Event::InterruptsWere(self.disable_interrupts()),
            Action::Write(word) => {
                self.write(word);
                Event::Completed
            },
            Action::Delay => {
                self.delay();
                Event::Completed
            },
            Action::RestoreInterrupts(state) => {
                self.restore_interrupts(state);
                Event::Completed
            },
        }
    }

    /// Drives `write` on this device: up to `steps` times, takes the action
    /// that is due, performs it and reports its outcome.  It stops early
    /// once the write is complete.
    pub fn run(&mut self, write: &mut ProtectedWrite, steps: usize)
        ensures
            (final(self)@, final(write).spec_phase()) == drive(
                old(self)@,
                old(write).spec_divisor(),
                old(write).spec_phase(),
                steps as nat,
            ),
            final(write).spec_divisor() == old(write).spec_divisor(),
    {
        let ghost divisor = write.spec_divisor();
        let mut done: usize = 0;
        let mut next = write.pending();
        while done < steps && next.is_some()
            invariant
                done <= steps,
                write.spec_divisor() == divisor,
                next == write.spec_phase().pending(divisor),
                drive(self@, divisor, write.spec_phase(), (steps - done) as nat) == drive(
                    old(self)@,
                    divisor,
                    old(write).spec_phase(),
                    steps as nat,
                ),
            decreases steps - done,
        {
            let action = next.unwrap();
            let event = self.perform(action);
            write.report(event);
            next = write.pending();
            done += 1;
        }
    }
}

/// The written words of a trace that was extended are those of its first
/// part followed by those of the extension.
pub proof fn lemma_writes_of_concat(first: Seq<Record>, second: Seq<Record>)
    ensures
        writes_of(first + second) == writes_of(first) + writes_of(second),
    decreases second.len(),
{
    if second.len() == 0 {
        assert(first + second == first);
        assert(writes_of(first) + writes_of(second) == writes_of(first));
    } else {
        lemma_writes_of_concat(first, second.drop_last());
        assert((first + second).drop_last() == first + second.drop_last());
        assert((first + second).last() == second.last());
        let earlier = writes_of(first) + writes_of(second.drop_last());
        match second.last() {
            Record::Write(word) => {
                assert(earlier.push(word) == writes_of(first) + writes_of(
                    second.drop_last(),
                ).push(word));
            },
            _ => {},
        }
    }
}

/// A record other than a write, put anywhere into a trace, leaves the
/// written words as they are.
pub proof fn lemma_writes_of_insert(trace: Seq<Record>, at: int, record: Record)
    requires
        0 <= at <= trace.len(),
        !(record is Write),
    ensures
        writes_of(trace.insert(at, record)) == writes_of(trace),
{
    let head = trace.take(at);
    let rest = trace.skip(at);
    assert(trace.insert(at, record) =~= head.push(record) + rest);
    assert(trace =~= head + rest);
    assert(head.push(record).drop_last() =~= head);
    lemma_writes_of_concat(head.push(record), rest);
    lemma_writes_of_concat(head, rest);
}

} // verus!
