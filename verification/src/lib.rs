//! Bus-agnostic driver logic for the AXP family of I2C power-management chips.
//!
//! The crate never touches a bus. Each operation of the device handle answers
//! with the next transaction it needs; the owner of the bus performs it and
//! hands the result back.

pub mod bits;
pub mod chip;
pub mod driver;
pub mod events;
pub mod latch;
pub mod power;
pub mod register;
pub mod session;

pub use chip::ChipId;
pub use driver::{Action, Axpxx, Edge, IrqLine, Outcome, Pending, Reply, Transfer};
pub use events::{EventsIrq, IrqGroup};
pub use latch::InterruptLatch;
pub use power::{Power, State};
pub use register::Register;
