//! Clock prescaler control for the ATmega2560P, written so that the whole
//! reconfiguration protocol can be verified and exercised on a development
//! host.
//!
//! The prescaler register is protected: a new division factor is accepted
//! only when a change-enable write is followed, within a few cycles, by the
//! committing write, and no interrupt may run in between.  The crate splits
//! that job into
//!
//! * [`divisor`]: the nine legal division factors and their select codes,
//! * [`register`]: the layout of the control word,
//! * [`protocol`]: the protected write as a state machine that names the next
//!   hardware action and takes its outcome, without touching hardware itself,
//! * [`mcu`]: an in-memory microcontroller that records what a driver did to it,
//! * [`prescalar`]: the controller, which runs the protocol on the device it owns.

pub mod divisor;
pub mod mcu;
pub mod prescalar;
pub mod protocol;
pub mod register;

pub use divisor::{ClockDivisor, InvalidDivisor};
pub use mcu::{Mcu, Record};
pub use prescalar::Prescalar;
pub use protocol::{Action, Event, InterruptState, Phase, ProtectedWrite};
