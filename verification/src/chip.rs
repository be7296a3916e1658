//! Which chip of the family is attached.

use vstd::prelude::*;
use vstd::std_specs::convert::FromSpecImpl;

verus! {

/// Identification code of the AXP202.
pub const AXP202_CODE: u8 = 0x41;

/// Identification code of the AXP192.
pub const AXP192_CODE: u8 = 0x03;

/// Identification code of the AXP173.
pub const AXP173_CODE: u8 = 0xAD;

/// The chip variants the driver tells apart. A chip that answers with a code
/// the driver does not know is `Unknown`, which is no error.
#[derive(Clone, Copy, Debug, PartialEq, Eq, Structural)]
pub enum ChipId {
    Unknown,
    Axp202,
    Axp192,
    Axp173,
}

impl From<u8> for ChipId {
    /// The variant that the identification byte `id` stands for.
    fn from(id: u8) -> (chip: ChipId) {
        if id == AXP202_CODE {
            ChipId::Axp202
        } else if id == AXP192_CODE {
            ChipId::Axp192
        } else if id == AXP173_CODE {
            ChipId::Axp173
        } else {
            ChipId::Unknown
        }
    }
}

/// The variant that an identification byte stands for.
pub open spec fn chip_of(id: u8) -> ChipId {
    if id == AXP202_CODE {
        ChipId::Axp202
    } else if id == AXP192_CODE {
        ChipId::Axp192
    } else if id == AXP173_CODE {
        ChipId::Axp173
    } else {
        ChipId::Unknown
    }
}

impl FromSpecImpl<u8> for ChipId {
    open spec fn obeys_from_spec() -> bool {
        true
    }

    open spec fn from_spec(id: u8) -> ChipId {
        chip_of(id)
    }
}

impl ChipId {
    /// Whether this variant needs the DC-DC3 rail kept on at all times.
    pub open spec fn spec_forces_dc_dc3(self) -> bool {
        self == ChipId::Axp202
    }

    /// Whether this variant needs the DC-DC3 rail kept on at all times.
    #[verifier::when_used_as_spec(spec_forces_dc_dc3)]
    pub fn forces_dc_dc3(self) -> (r: bool)
        ensures
            r == (self == ChipId::Axp202),
    {
        match self {
            ChipId::Axp202 => true,
            _ => false,
        }
    }
}

} // verus!
