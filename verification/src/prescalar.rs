//! The clock prescaler controller.

use crate::divisor::{ClockDivisor, InvalidDivisor};
use crate::mcu::{
    drive, lemma_writes_of_concat, lemma_writes_of_insert, writes_of, Mcu, McuState, Record,
};
use crate::protocol::{InterruptState, Phase, ProtectedWrite, WRITE_STEPS};
use crate::register::{
    lemma_commit_word_layout, spec_change_enabled, spec_commit_word, spec_reserved_clear,
    spec_select_field, CHANGE_ENABLE,
};
use vstd::prelude::*;

verus! {

/// What a complete write of `divisor` adds to the record of a device on
/// which interrupts were in state `prior` and no interrupt request arrives
/// meanwhile.
pub open spec fn window_records(divisor: ClockDivisor, prior: InterruptState) -> Seq<Record> {
    seq![
        Record::Masked,
        Record::Write(CHANGE_ENABLE),
        Record::Delay,
        Record::Write(spec_commit_word(divisor)),
        Record::Restored(prior),
    ]
}

/// The device after a complete, undisturbed write of `divisor`: interrupts
/// masked, change-enable word, one cycle, committing word, interrupts
/// restored to what they were.
pub open spec fn reconfigured(device: McuState, divisor: ClockDivisor) -> McuState {
    device.disable().write(CHANGE_ENABLE).delay().write(spec_commit_word(divisor)).restore(
        device.interrupt_state(),
    )
}

/// Whether every handler that `trace` records found the change-enable
/// flag at zero.
pub open spec fn handlers_saw_settled(trace: Seq<Record>) -> bool {
    forall|i: int|
        0 <= i < trace.len() ==> (#[trigger] trace[i] matches Record::Delivered(word)
            ==> !spec_change_enabled(word))
}

/// Whether the device keeps the change-enable flag out of the sight of
/// interrupt handlers: the flag is set only while interrupts are masked,
/// and no handler has found it set.
pub open spec fn shielded(device: McuState) -> bool {
    &&& spec_change_enabled(device.register) ==> !device.interrupts_enabled
    &&& handlers_saw_settled(device.trace)
}

/// What holds of the device while a write on it is in `phase`: the flag
/// is shielded, interrupts stay masked for as long as their former state
/// is owed, and the flag is gone again before they are restored.
pub open spec fn shielded_in(device: McuState, phase: Phase) -> bool {
    &&& shielded(device)
    &&& phase.in_window() ==> !device.interrupts_enabled
    &&& phase is Applied ==> !spec_change_enabled(device.register)
}

/// The controller of the clock prescaler.  It is the one owner of the
/// device whose register it reconfigures.
pub struct Prescalar {
    device: Mcu,
}

impl View for Prescalar {
    type V = McuState;

    closed spec fn view(&self) -> McuState {
        self.device@
    }
}

impl Prescalar {
    /// Takes ownership of `device`.
    pub fn new(device: Mcu) -> (prescalar: Prescalar)
        ensures
            prescalar@ == device@,
    {
        Prescalar { device }
    }

    /// The device, for inspection.
    pub fn device(&self) -> (device: &Mcu)
        ensures
            device@ == self@,
    {
        &self.device
    }

    /// Sets the clock division factor to `freq`.
    ///
    /// A factor other than 1, 2, 4, 8, 16, 32, 64, 128 or 256 is rejected
    /// before the device is touched.  Otherwise the select code of the
    /// factor is written to the register in a protected write: with
    /// interrupts masked, the change-enable word, one cycle of delay and
    /// the committing word go out back to back, and the interrupt flag is
    /// put back to the state it was found in.
    pub fn enable_clock(&mut self, freq: u32) -> (result: Result<(), InvalidDivisor>)
        ensures
            match ClockDivisor::of_factor(freq) {
                Some(divisor) => {
                    &&& result is Ok
                    &&& final(self)@ == reconfigured(old(self)@, divisor)
                    &&& spec_select_field(final(self)@.register) == divisor.spec_select_code()
                    &&& !spec_change_enabled(final(self)@.register)
                    &&& spec_reserved_clear(final(self)@.register)
                    &&& writes_of(final(self)@.trace) == writes_of(old(self)@.trace) + seq![
                        CHANGE_ENABLE,
                        spec_commit_word(divisor),
                    ]
                },
                None => {
                    &&& result matches Err(e) && e.requested == freq
                    &&& final(self)@ == old(self)@
                },
            },
            final(self)@.interrupts_enabled == old(self)@.interrupts_enabled,
            shielded(old(self)@) ==> shielded(final(self)@),
    {
        let mut write = match ProtectedWrite::begin(freq) {
            Ok(write) => write,
            Err(e) => {
                return Err(e);
            },
        };
        let ghost divisor = write.spec_divisor();
        self.device.run(&mut write, WRITE_STEPS);
        proof {
            lemma_drive_completes(old(self)@, divisor);
            lemma_reconfigured(old(self)@, divisor);
            if shielded(old(self)@) {
                lemma_drive_keeps_shield(old(self)@, divisor, Phase::Idle, Phase::Idle.remaining());
            }
        }
        Ok(())
    }
}

/// Driven to its end, a write that starts on `device` leaves it as
/// `reconfigured` says, with nothing left to do.
pub proof fn lemma_drive_completes(device: McuState, divisor: ClockDivisor)
    ensures
        drive(device, divisor, Phase::Idle, Phase::Idle.remaining()) == (
            reconfigured(device, divisor),
            Phase::Released,
        ),
{
    reveal_with_fuel(drive, 6);
}

/// What a complete write changes and what it leaves alone.
///
/// The register ends up holding the select code of the divisor, with the
/// change-enable flag and the reserved bits at zero.  The interrupt flag is
/// what it was.  The record grows by the five steps of the write, in order
/// and with nothing in between; where a request had been held back and
/// interrupts were enabled, its handler runs right after the restore and
/// finds the committed word.
pub proof fn lemma_reconfigured(device: McuState, divisor: ClockDivisor)
    ensures
        ({
            let after = reconfigured(device, divisor);
            let word = spec_commit_word(divisor);
            let served: Seq<Record> = if device.interrupts_enabled && device.pending {
                seq![Record::Delivered(word)]
            } else {
                Seq::empty()
            };
            &&& after.register == word
            &&& spec_select_field(after.register) == divisor.spec_select_code()
            &&& !spec_change_enabled(after.register)
            &&& spec_reserved_clear(after.register)
            &&& after.interrupts_enabled == device.interrupts_enabled
            &&& after.pending == (device.pending && !device.interrupts_enabled)
            &&& after.trace == device.trace + window_records(divisor, device.interrupt_state())
                + served
            &&& writes_of(after.trace) == writes_of(device.trace) + seq![CHANGE_ENABLE, word]
        }),
{
    let after = reconfigured(device, divisor);
    let word = spec_commit_word(divisor);
    let window = window_records(divisor, device.interrupt_state());
    let served: Seq<Record> = if device.interrupts_enabled && device.pending {
        seq![Record::Delivered(word)]
    } else {
        Seq::empty()
    };
    lemma_commit_word_layout(divisor);
    assert(after.trace =~= device.trace + window + served);
    lemma_writes_of_concat(device.trace + window, served);
    lemma_writes_of_concat(device.trace, window);
    lemma_writes_of_window(divisor, device.interrupt_state());
    assert(writes_of(served) =~= Seq::<u8>::empty()) by {
        reveal_with_fuel(writes_of, 2);
    }
    assert(writes_of(after.trace) =~= writes_of(device.trace) + seq![CHANGE_ENABLE, word]);
}

/// A complete write puts two words on the bus: the change-enable word,
/// then the committing word.
pub proof fn lemma_writes_of_window(divisor: ClockDivisor, prior: InterruptState)
    ensures
        writes_of(window_records(divisor, prior)) == seq![
            CHANGE_ENABLE,
            spec_commit_word(divisor),
        ],
{
    let window = window_records(divisor, prior);
    let w4 = window.drop_last();
    let w3 = w4.drop_last();
    let w2 = w3.drop_last();
    let w1 = w2.drop_last();
    let w0 = w1.drop_last();
    assert(w0.len() == 0);
    assert(writes_of(w0) =~= Seq::<u8>::empty());
    assert(writes_of(w1) =~= Seq::<u8>::empty());
    assert(writes_of(w2) =~= seq![CHANGE_ENABLE]);
    assert(writes_of(w3) =~= seq![CHANGE_ENABLE]);
    assert(writes_of(w4) =~= seq![CHANGE_ENABLE, spec_commit_word(divisor)]);
    assert(writes_of(window) =~= seq![CHANGE_ENABLE, spec_commit_word(divisor)]);
}

/// An interrupt request that arrives inside the window of a write is held
/// back, and the write goes on as if nothing had happened.
///
/// `steps` counts the actions done when the request arrives: one to four,
/// from just after interrupts were masked to just before they are restored.
/// The request is recorded as deferred and no handler runs.  The write then
/// completes with the same words on the bus and the same register and
/// interrupt flag as an undisturbed one.  Where interrupts were enabled
/// before the write, the handler runs right after the restore and finds the
/// committed word; where they were not, the request stays held back.
pub proof fn lemma_request_in_window_is_deferred(
    device: McuState,
    divisor: ClockDivisor,
    steps: nat,
)
    requires
        1 <= steps <= 4,
    ensures
        ({
            let (before, phase) = drive(device, divisor, Phase::Idle, steps);
            let hit = before.request();
            let (end, last) = drive(hit, divisor, phase, phase.remaining());
            let prior = device.interrupt_state();
            let word = spec_commit_word(divisor);
            let served: Seq<Record> = if prior.enabled {
                seq![Record::Delivered(word)]
            } else {
                Seq::empty()
            };
            &&& phase.owed() == Some(prior)
            &&& !before.interrupts_enabled
            &&& hit == (McuState {
                pending: true,
                trace: before.trace.push(Record::Deferred),
                ..before
            })
            &&& last == Phase::Released
            &&& end.register == word
            &&& !spec_change_enabled(word)
            &&& end.interrupts_enabled == device.interrupts_enabled
            &&& end.pending == !device.interrupts_enabled
            &&& end.trace == device.trace + window_records(divisor, prior).insert(
                steps as int,
                Record::Deferred,
            ) + served
            &&& writes_of(end.trace) == writes_of(device.trace) + seq![CHANGE_ENABLE, word]
        }),
{
    reveal_with_fuel(drive, 6);
    let (before, phase) = drive(device, divisor, Phase::Idle, steps);
    let (end, last) = drive(before.request(), divisor, phase, phase.remaining());
    let prior = device.interrupt_state();
    let word = spec_commit_word(divisor);
    let window = window_records(divisor, prior);
    let disturbed = window.insert(steps as int, Record::Deferred);
    let served: Seq<Record> = if prior.enabled {
        seq![Record::Delivered(word)]
    } else {
        Seq::empty()
    };
    lemma_commit_word_layout(divisor);
    assert(end.trace =~= device.trace + disturbed + served);
    lemma_writes_of_concat(device.trace + disturbed, served);
    lemma_writes_of_concat(device.trace, disturbed);
    lemma_writes_of_insert(window, steps as int, Record::Deferred);
    lemma_writes_of_window(divisor, prior);
    assert(writes_of(served) =~= Seq::<u8>::empty()) by {
        reveal_with_fuel(writes_of, 2);
    }
    assert(writes_of(end.trace) =~= writes_of(device.trace) + seq![CHANGE_ENABLE, word]);
}

/// One step of a write keeps the change-enable flag shielded.
pub proof fn lemma_step_keeps_shield(device: McuState, divisor: ClockDivisor, phase: Phase)
    requires
        shielded_in(device, phase),
    ensures
        phase.pending(divisor) matches Some(action) ==> shielded_in(
            device.perform(action),
            phase.after(device.response(action)),
        ),
{
    lemma_commit_word_layout(divisor);
}

/// An interrupt request keeps the change-enable flag shielded whenever it
/// arrives, and inside the window of a write it is held back: no handler
/// runs between the change-enable word and the committing word.
pub proof fn lemma_request_keeps_shield(device: McuState, phase: Phase)
    requires
        shielded_in(device, phase),
    ensures
        shielded_in(device.request(), phase),
        phase.in_window() ==> device.request() == (McuState {
            pending: true,
            trace: device.trace.push(Record::Deferred),
            ..device
        }),
{
}

/// However far a write is driven, the change-enable flag stays shielded.
pub proof fn lemma_drive_keeps_shield(
    device: McuState,
    divisor: ClockDivisor,
    phase: Phase,
    steps: nat,
)
    requires
        shielded_in(device, phase),
    ensures
        shielded_in(
            drive(device, divisor, phase, steps).0,
            drive(device, divisor, phase, steps).1,
        ),
    decreases steps,
{
    match phase.pending(divisor) {
        Some(action) if steps > 0 => {
            lemma_step_keeps_shield(device, divisor, phase);
            lemma_drive_keeps_shield(
                device.perform(action),
                divisor,
                phase.after(device.response(action)),
                (steps - 1) as nat,
            );
        },
        _ => {},
    }
}

} // verus!
