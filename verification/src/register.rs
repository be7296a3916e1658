//! The registers of the chip that the driver reads and writes.

use crate::events::IrqGroup;
use vstd::prelude::*;

verus! {

/// A register of the chip, by name.
#[derive(Clone, Copy, Debug, PartialEq, Eq, Structural)]
pub enum Register {
    Status,
    IcType,
    Ldo234Dc23Ctl,
    EnabledIrq1,
    EnabledIrq2,
    EnabledIrq3,
    EnabledIrq4,
    EnabledIrq5,
    StatusIrq1,
    StatusIrq2,
    StatusIrq3,
    StatusIrq4,
    StatusIrq5,
}

impl Register {
    /// The one-byte address of the register on the chip.
    pub open spec fn spec_addr(self) -> u8 {
        match self {
            Register::Status => 0x00,
            Register::IcType => 0x03,
            Register::Ldo234Dc23Ctl => 0x12,
            Register::EnabledIrq1 => 0x40,
            Register::EnabledIrq2 => 0x41,
            Register::EnabledIrq3 => 0x42,
            Register::EnabledIrq4 => 0x43,
            Register::EnabledIrq5 => 0x45,
            Register::StatusIrq1 => 0x48,
            Register::StatusIrq2 => 0x49,
            Register::StatusIrq3 => 0x4A,
            Register::StatusIrq4 => 0x4B,
            Register::StatusIrq5 => 0x4C,
        }
    }

    /// The register that switches the events of `group` on and off.
    pub open spec fn spec_enabled_irq(group: IrqGroup) -> Register {
        match group {
            IrqGroup::Int1 => Register::EnabledIrq1,
            IrqGroup::Int2 => Register::EnabledIrq2,
            IrqGroup::Int3 => Register::EnabledIrq3,
            IrqGroup::Int4 => Register::EnabledIrq4,
            IrqGroup::Int5 => Register::EnabledIrq5,
        }
    }

    /// The register that latches the events of `group`.
    pub open spec fn spec_status_irq(group: IrqGroup) -> Register {
        match group {
            IrqGroup::Int1 => Register::StatusIrq1,
            IrqGroup::Int2 => Register::StatusIrq2,
            IrqGroup::Int3 => Register::StatusIrq3,
            IrqGroup::Int4 => Register::StatusIrq4,
            IrqGroup::Int5 => Register::StatusIrq5,
        }
    }

    /// The one-byte address of the register on the chip.
    #[verifier::when_used_as_spec(spec_addr)]
    pub fn addr(self) -> (a: u8)
        ensures
            a == self.spec_addr(),
    {
        match self {
            Register::Status => 0x00,
            Register::IcType => 0x03,
            Register::Ldo234Dc23Ctl => 0x12,
            Register::EnabledIrq1 => 0x40,
            Register::EnabledIrq2 => 0x41,
            Register::EnabledIrq3 => 0x42,
            Register::EnabledIrq4 => 0x43,
            Register::EnabledIrq5 => 0x45,
            Register::StatusIrq1 => 0x48,
            Register::StatusIrq2 => 0x49,
            Register::StatusIrq3 => 0x4A,
            Register::StatusIrq4 => 0x4B,
            Register::StatusIrq5 => 0x4C,
        }
    }

    /// The register that switches the events of `group` on and off.
    #[verifier::when_used_as_spec(spec_enabled_irq)]
    pub fn enabled_irq(group: IrqGroup) -> (r: Register)
        ensures
            r == Self::spec_enabled_irq(group),
    {
        match group {
            IrqGroup::Int1 => Register::EnabledIrq1,
            IrqGroup::Int2 => Register::EnabledIrq2,
            IrqGroup::Int3 => Register::EnabledIrq3,
            IrqGroup::Int4 => Register::EnabledIrq4,
            IrqGroup::Int5 => Register::EnabledIrq5,
        }
    }

    /// The register that latches the events of `group`.
    #[verifier::when_used_as_spec(spec_status_irq)]
    pub fn status_irq(group: IrqGroup) -> (r: Register)
        ensures
            r == Self::spec_status_irq(group),
    {
        match group {
            IrqGroup::Int1 => Register::StatusIrq1,
            IrqGroup::Int2 => Register::StatusIrq2,
            IrqGroup::Int3 => Register::StatusIrq3,
            IrqGroup::Int4 => Register::StatusIrq4,
            IrqGroup::Int5 => Register::StatusIrq5,
        }
    }
}

/// No two registers share an address.
pub proof fn lemma_addr_injective(a: Register, b: Register)
    requires
        a.addr() == b.addr(),
    ensures
        a == b,
{
}

} // verus!
