//! The flag by which the interrupt handler tells the driver that the chip's
//! interrupt line has fired.

use std::sync::atomic::{AtomicBool, Ordering};
use vstd::prelude::*;

verus! {

/// A flag shared between the interrupt handler, which only ever sets it, and
/// the one thread that polls the driver, which only ever clears it. Any
/// number of interrupts between two polls count as one.
pub struct InterruptLatch {
    flag: AtomicBool,
}

impl InterruptLatch {
    /// A latch that has not been signalled.
    pub fn new() -> (latch: InterruptLatch) {
        InterruptLatch { flag: AtomicBool::new(false) }
    }

    /// Records that the interrupt line has fired. This is all the interrupt
    /// handler does: it neither blocks nor touches the bus.
    pub fn signal(&self) {
        self.flag.store(true, Ordering::SeqCst);
    }

    /// Whether the interrupt line has fired since the latch was last
    /// consumed; the latch is reset when it has.
    pub fn consume(&self) -> (triggered: bool) {
        let triggered = self.flag.load(Ordering::SeqCst);
        if triggered {
            self.flag.store(false, Ordering::SeqCst);
        }
        triggered
    }
}

} // verus!
