use axpxx::chip::{AXP173_CODE, AXP192_CODE, AXP202_CODE};
use axpxx::events::{EVENT_COUNT, POWER_KEY_SHORT_PRESS};
use axpxx::power::{DCDC2, DCDC3, EXTEN, LDO2, LDO3, LDO4};
use axpxx::{ChipId, EventsIrq, IrqGroup, Power, Register};

const GROUPS: [IrqGroup; 5] =
    [IrqGroup::Int1, IrqGroup::Int2, IrqGroup::Int3, IrqGroup::Int4, IrqGroup::Int5];

#[test]
fn chip_codes_classify() {
    assert_eq!(ChipId::from(0x41), ChipId::Axp202);
    assert_eq!(ChipId::from(0x03), ChipId::Axp192);
    assert_eq!(ChipId::from(0xAD), ChipId::Axp173);
    assert_eq!(ChipId::from(AXP202_CODE), ChipId::Axp202);
    assert_eq!(ChipId::from(AXP192_CODE), ChipId::Axp192);
    assert_eq!(ChipId::from(AXP173_CODE), ChipId::Axp173);
}

#[test]
fn unknown_chip_code_is_no_error() {
    assert_eq!(ChipId::from(0x99), ChipId::Unknown);
    assert_eq!(ChipId::from(0x00), ChipId::Unknown);
    assert_eq!(ChipId::from(0xFF), ChipId::Unknown);
}

#[test]
fn every_other_code_is_unknown() {
    for code in 0..=255u8 {
        let known = code == 0x41 || code == 0x03 || code == 0xAD;
        assert_eq!(ChipId::from(code) == ChipId::Unknown, !known);
    }
}

#[test]
fn only_axp202_forces_dc_dc3() {
    assert!(ChipId::Axp202.forces_dc_dc3());
    assert!(!ChipId::Axp192.forces_dc_dc3());
    assert!(!ChipId::Axp173.forces_dc_dc3());
    assert!(!ChipId::Unknown.forces_dc_dc3());
}

#[test]
fn register_addresses() {
    assert_eq!(Register::Status.addr(), 0x00);
    assert_eq!(Register::IcType.addr(), 0x03);
    assert_eq!(Register::Ldo234Dc23Ctl.addr(), 0x12);
    assert_eq!(Register::EnabledIrq1.addr(), 0x40);
    assert_eq!(Register::EnabledIrq2.addr(), 0x41);
    assert_eq!(Register::EnabledIrq3.addr(), 0x42);
    assert_eq!(Register::EnabledIrq4.addr(), 0x43);
    assert_eq!(Register::EnabledIrq5.addr(), 0x45);
    assert_eq!(Register::StatusIrq1.addr(), 0x48);
    assert_eq!(Register::StatusIrq2.addr(), 0x49);
    assert_eq!(Register::StatusIrq3.addr(), 0x4A);
    assert_eq!(Register::StatusIrq4.addr(), 0x4B);
    assert_eq!(Register::StatusIrq5.addr(), 0x4C);
}

#[test]
fn register_addresses_are_distinct() {
    let all = [
        Register::Status,
        Register::IcType,
        Register::Ldo234Dc23Ctl,
        Register::EnabledIrq1,
        Register::EnabledIrq2,
        Register::EnabledIrq3,
        Register::EnabledIrq4,
        Register::EnabledIrq5,
        Register::StatusIrq1,
        Register::StatusIrq2,
        Register::StatusIrq3,
        Register::StatusIrq4,
        Register::StatusIrq5,
    ];
    for (i, a) in all.iter().enumerate() {
        for (j, b) in all.iter().enumerate() {
            assert_eq!(a.addr() == b.addr(), i == j);
        }
    }
}

#[test]
fn registers_of_each_group() {
    let enabled = [0x40u8, 0x41, 0x42, 0x43, 0x45];
    let status = [0x48u8, 0x49, 0x4A, 0x4B, 0x4C];
    for (i, group) in GROUPS.iter().enumerate() {
        assert_eq!(Register::enabled_irq(*group).addr(), enabled[i]);
        assert_eq!(Register::status_irq(*group).addr(), status[i]);
    }
}

#[test]
fn groups_follow_each_other() {
    assert_eq!(IrqGroup::Int1.next(), Some(IrqGroup::Int2));
    assert_eq!(IrqGroup::Int2.next(), Some(IrqGroup::Int3));
    assert_eq!(IrqGroup::Int3.next(), Some(IrqGroup::Int4));
    assert_eq!(IrqGroup::Int4.next(), Some(IrqGroup::Int5));
    assert_eq!(IrqGroup::Int5.next(), None);
    assert_eq!(IrqGroup::Int1.shift(), 0);
    assert_eq!(IrqGroup::Int2.shift(), 8);
    assert_eq!(IrqGroup::Int3.shift(), 16);
    assert_eq!(IrqGroup::Int4.shift(), 24);
    assert_eq!(IrqGroup::Int5.shift(), 32);
}

#[test]
fn event_layout() {
    assert_eq!(EVENT_COUNT, 40);
    assert_eq!(POWER_KEY_SHORT_PRESS, 17);
    assert_eq!(EventsIrq::power_key_short_press(), EventsIrq::from_int3_u8(0b0000_0010));
    assert_eq!(EventsIrq::power_key_short_press().into_int3_u8(), 0b0000_0010);
    assert_eq!(EventsIrq::int1(), EventsIrq::from_int1_u8(0xFF));
    assert_eq!(EventsIrq::int2(), EventsIrq::from_int2_u8(0xFF));
    assert_eq!(EventsIrq::int3(), EventsIrq::from_int3_u8(0xFF));
    assert_eq!(EventsIrq::int4(), EventsIrq::from_int4_u8(0xFF));
    assert_eq!(EventsIrq::int5(), EventsIrq::from_int5_u8(0xFF));
    for group in GROUPS {
        assert_eq!(EventsIrq::group(group), EventsIrq::from_group_u8(group, 0xFF));
    }
}

#[test]
fn all_is_the_union_of_the_groups() {
    let all = EventsIrq::int1()
        .union(EventsIrq::int2())
        .union(EventsIrq::int3())
        .union(EventsIrq::int4())
        .union(EventsIrq::int5());
    assert_eq!(all, EventsIrq::all());
    assert_eq!(EventsIrq::all().complement(), EventsIrq::none());
    assert_eq!(EventsIrq::none().complement(), EventsIrq::all());
    assert!(EventsIrq::none().is_none());
    assert!(!EventsIrq::all().is_none());
}

#[test]
fn group_byte_round_trip_keeps_every_byte() {
    for group in GROUPS {
        for byte in 0..=255u8 {
            assert_eq!(EventsIrq::from_group_u8(group, byte).into_group_u8(group), byte);
        }
    }
}

#[test]
fn group_byte_round_trip_by_name() {
    for byte in 0..=255u8 {
        assert_eq!(EventsIrq::from_int1_u8(byte).into_int1_u8(), byte);
        assert_eq!(EventsIrq::from_int2_u8(byte).into_int2_u8(), byte);
        assert_eq!(EventsIrq::from_int3_u8(byte).into_int3_u8(), byte);
        assert_eq!(EventsIrq::from_int4_u8(byte).into_int4_u8(), byte);
        assert_eq!(EventsIrq::from_int5_u8(byte).into_int5_u8(), byte);
    }
}

#[test]
fn group_byte_round_trip_keeps_every_set_of_one_group() {
    for group in GROUPS {
        for byte in 0..=255u8 {
            let m = EventsIrq::from_group_u8(group, byte);
            assert!(EventsIrq::group(group).contains(m));
            assert_eq!(EventsIrq::from_group_u8(group, m.into_group_u8(group)), m);
        }
    }
}

#[test]
fn a_byte_of_one_group_leaves_the_others_at_zero() {
    for group in GROUPS {
        let m = EventsIrq::from_group_u8(group, 0xA5);
        for other in GROUPS {
            let expected = if other == group { 0xA5 } else { 0 };
            assert_eq!(m.into_group_u8(other), expected);
            assert_eq!(m.is_group(other), other == group);
        }
    }
}

#[test]
fn a_zero_byte_is_the_empty_set() {
    for group in GROUPS {
        assert_eq!(EventsIrq::from_group_u8(group, 0), EventsIrq::none());
        assert_eq!(EventsIrq::none().into_group_u8(group), 0);
    }
}

#[test]
fn encode_drops_the_other_groups() {
    let m = EventsIrq::from_int1_u8(0x11)
        .union(EventsIrq::from_int2_u8(0x22))
        .union(EventsIrq::from_int3_u8(0x33))
        .union(EventsIrq::from_int4_u8(0x44))
        .union(EventsIrq::from_int5_u8(0x55));
    assert_eq!(m.into_int1_u8(), 0x11);
    assert_eq!(m.into_int2_u8(), 0x22);
    assert_eq!(m.into_int3_u8(), 0x33);
    assert_eq!(m.into_int4_u8(), 0x44);
    assert_eq!(m.into_int5_u8(), 0x55);
    assert!(m.is_int1() && m.is_int2() && m.is_int3() && m.is_int4() && m.is_int5());
}

#[test]
fn is_group_by_name() {
    let m = EventsIrq::power_key_short_press();
    assert!(!m.is_int1());
    assert!(!m.is_int2());
    assert!(m.is_int3());
    assert!(!m.is_int4());
    assert!(!m.is_int5());
    assert!(!EventsIrq::none().is_int3());
}

#[test]
fn first_group_from_skips_groups_without_events() {
    let m = EventsIrq::from_int2_u8(1).union(EventsIrq::from_int4_u8(0x80));
    assert_eq!(m.first_group_from(IrqGroup::Int1), Some(IrqGroup::Int2));
    assert_eq!(m.first_group_from(IrqGroup::Int2), Some(IrqGroup::Int2));
    assert_eq!(m.first_group_from(IrqGroup::Int3), Some(IrqGroup::Int4));
    assert_eq!(m.first_group_from(IrqGroup::Int4), Some(IrqGroup::Int4));
    assert_eq!(m.first_group_from(IrqGroup::Int5), None);
    assert_eq!(EventsIrq::none().first_group_from(IrqGroup::Int1), None);
    assert_eq!(EventsIrq::all().first_group_from(IrqGroup::Int1), Some(IrqGroup::Int1));
}

#[test]
fn set_operations_on_events() {
    let a = EventsIrq::from_int1_u8(0b1100).union(EventsIrq::from_int5_u8(0b0001));
    let b = EventsIrq::from_int1_u8(0b1010);
    assert_eq!(a.union(b).into_int1_u8(), 0b1110);
    assert_eq!(a.union(b).into_int5_u8(), 0b0001);
    assert_eq!(a.intersect(b), EventsIrq::from_int1_u8(0b1000));
    assert_eq!(a.difference(b).into_int1_u8(), 0b0100);
    assert_eq!(a.difference(b).into_int5_u8(), 0b0001);
    assert_eq!(a.complement().into_int1_u8(), 0b1111_0011);
    assert_eq!(a.complement().into_int5_u8(), 0b1111_1110);
    assert_eq!(a.complement().into_int3_u8(), 0xFF);
    assert_eq!(a.complement().complement(), a);
    assert!(a.intersects(b));
    assert!(!a.intersects(EventsIrq::from_int2_u8(0xFF)));
    assert!(!a.intersects(EventsIrq::none()));
    assert!(a.contains(EventsIrq::from_int1_u8(0b0100)));
    assert!(a.contains(EventsIrq::none()));
    assert!(!a.contains(b));
    assert!(EventsIrq::all().contains(a));
}

#[test]
fn toggle_on_adds_and_keeps() {
    let current = EventsIrq::from_int3_u8(0b0101);
    let delta = EventsIrq::from_int3_u8(0b0110);
    let on = current.toggle(delta, true);
    assert_eq!(on, current.union(delta));
    assert_eq!(on.into_int3_u8(), 0b0111);
    assert!(on.contains(current));
    assert!(on.contains(delta));
}

#[test]
fn toggle_off_removes_exactly_what_was_on() {
    let current = EventsIrq::from_int3_u8(0b0101);
    let delta = EventsIrq::from_int3_u8(0b0110);
    let off = current.toggle(delta, false);
    assert_eq!(off.into_int3_u8(), 0b0001);
    assert_eq!(off, current.difference(delta.intersect(current)));
    assert_eq!(off.union(delta.intersect(current)), current);
    assert!(!off.intersects(delta));
}

#[test]
fn toggle_twice_is_toggle_once() {
    let current = EventsIrq::from_int2_u8(0x3C).union(EventsIrq::from_int4_u8(0x81));
    let delta = EventsIrq::from_int2_u8(0x0F).union(EventsIrq::from_int5_u8(0x10));
    for enable in [true, false] {
        let once = current.toggle(delta, enable);
        assert_eq!(once.toggle(delta, enable), once);
    }
}

#[test]
fn rail_positions() {
    assert_eq!((EXTEN, DCDC3, LDO2, LDO4, DCDC2, LDO3), (0, 1, 2, 3, 4, 6));
    assert_eq!(Power::exten().into_u8(), 0b0000_0001);
    assert_eq!(Power::dc_dc3().into_u8(), 0b0000_0010);
    assert_eq!(Power::ldo2().into_u8(), 0b0000_0100);
    assert_eq!(Power::ldo4().into_u8(), 0b0000_1000);
    assert_eq!(Power::dc_dc2().into_u8(), 0b0001_0000);
    assert_eq!(Power::ldo3().into_u8(), 0b0100_0000);
    assert_eq!(Power::none().into_u8(), 0);
}

#[test]
fn rail_byte_round_trip() {
    for byte in 0..=255u8 {
        assert_eq!(Power::from_u8(byte).into_u8(), byte);
        assert_eq!(Power::from_u8(byte).is_none(), byte == 0);
    }
}

#[test]
fn set_operations_on_rails() {
    let a = Power::exten().union(Power::ldo2());
    let b = Power::ldo2().union(Power::ldo3());
    assert_eq!(a.union(b).into_u8(), 0b0100_0101);
    assert_eq!(a.intersect(b), Power::ldo2());
    assert_eq!(a.difference(b), Power::exten());
    assert!(a.intersects(b));
    assert!(!a.intersects(Power::dc_dc3()));
    assert!(a.contains(Power::exten()));
    assert!(!a.contains(b));
    assert!(a.contains(Power::none()));
}

#[test]
fn toggle_rails() {
    let current = Power::from_u8(0b0010_0101);
    let delta = Power::ldo2().union(Power::ldo4());
    assert_eq!(current.toggle(delta, true).into_u8(), 0b0010_1101);
    assert_eq!(current.toggle(delta, false).into_u8(), 0b0010_0001);
    for enable in [true, false] {
        let once = current.toggle(delta, enable);
        assert_eq!(once.toggle(delta, enable), once);
    }
    assert!(current.toggle(delta, true).contains(current));
}
