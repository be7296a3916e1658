use axpxx::driver::{AXP202_SLAVE_ADDR, CLEAR_ALL, GPIO_INTR, RAIL_DELAY_MS};
use axpxx::{
    Action, Axpxx, ChipId, Edge, EventsIrq, InterruptLatch, IrqGroup, Outcome, Pending, Power,
    Register, Reply, State, Transfer,
};

/// One transaction on the bus, by register address.
#[derive(Clone, Copy, Debug, PartialEq, Eq)]
enum Op {
    Read(u8),
    Write(u8, u8),
}

#[derive(Clone, Copy, Debug, PartialEq, Eq)]
struct Nack;

/// A chip that counts what is asked of it. Its status registers drop the bits
/// that are written as one; every other register keeps what is written.
struct FakeChip {
    regs: [u8; 256],
    ops: Vec<Op>,
    delays: Vec<u32>,
    /// Number of transactions that succeed before the bus starts to fail.
    healthy: Option<usize>,
    /// Number of reads of the rail control register that still return zero
    /// before `late_rail` shows up in it.
    zero_reads: usize,
    late_rail: u8,
}

impl FakeChip {
    fn new() -> FakeChip {
        FakeChip {
            regs: [0; 256],
            ops: Vec::new(),
            delays: Vec::new(),
            healthy: None,
            zero_reads: 0,
            late_rail: 0,
        }
    }

    fn with(mut self, reg: Register, value: u8) -> FakeChip {
        self.regs[reg.addr() as usize] = value;
        self
    }

    fn get(&self, reg: Register) -> u8 {
        self.regs[reg.addr() as usize]
    }

    fn fails_now(&self) -> bool {
        match self.healthy {
            Some(n) => self.ops.len() >= n,
            None => false,
        }
    }

    fn read(&mut self, reg: Register) -> Result<u8, Nack> {
        if self.fails_now() {
            return Err(Nack);
        }
        let addr = reg.addr();
        self.ops.push(Op::Read(addr));
        if reg == Register::Ldo234Dc23Ctl && self.late_rail != 0 {
            if self.zero_reads == 0 {
                self.regs[addr as usize] = self.late_rail;
                self.late_rail = 0;
            } else {
                self.zero_reads -= 1;
            }
        }
        Ok(self.regs[addr as usize])
    }

    fn write(&mut self, reg: Register, value: u8) -> Result<(), Nack> {
        if self.fails_now() {
            return Err(Nack);
        }
        let addr = reg.addr();
        self.ops.push(Op::Write(addr, value));
        if (0x48..=0x4C).contains(&addr) {
            self.regs[addr as usize] &= !value;
        } else {
            self.regs[addr as usize] = value;
        }
        Ok(())
    }

    /// Performs what the handle asks for until the operation has finished.
    fn run(&mut self, axp: &mut Axpxx, first: Action) -> Result<Outcome, Nack> {
        let mut action = first;
        let mut turns = 0;
        loop {
            turns += 1;
            assert!(turns < 1000, "the operation does not come to an end");
            let reply = match action {
                Action::Read(reg) => self.read(reg).map(Reply::Value),
                Action::Write(reg, value) => self.write(reg, value).map(|_| Reply::Done),
                Action::Delay(ms) => {
                    self.delays.push(ms);
                    Ok(Reply::Done)
                }
                Action::Finished(outcome) => return Ok(outcome),
                Action::Idle => panic!("nothing is under way"),
            };
            action = axp.resume(reply)?;
        }
    }
}

fn identified(code: u8) -> Axpxx {
    let mut chip = FakeChip::new().with(Register::IcType, code);
    let mut axp = Axpxx::new();
    let first = axp.init();
    assert_eq!(chip.run(&mut axp, first), Ok(Outcome::Done));
    axp
}

const STATUS_READS: [Op; 5] =
    [Op::Read(0x48), Op::Read(0x49), Op::Read(0x4A), Op::Read(0x4B), Op::Read(0x4C)];

const STATUS_CLEARS: [Op; 5] = [
    Op::Write(0x48, 0xFF),
    Op::Write(0x49, 0xFF),
    Op::Write(0x4A, 0xFF),
    Op::Write(0x4B, 0xFF),
    Op::Write(0x4C, 0xFF),
];

#[test]
fn new_handle_is_at_rest() {
    let axp = Axpxx::new();
    assert_eq!(axp.addr(), 0x35);
    assert_eq!(axp.addr(), AXP202_SLAVE_ADDR);
    assert!(!axp.is_init());
    assert_eq!(axp.chip_id(), ChipId::Unknown);
    assert_eq!(axp.pending(), Pending::Idle);
    assert_eq!(axp.request(), Action::Idle);
}

#[test]
fn init_reads_the_identification_register_once() {
    let mut chip = FakeChip::new().with(Register::IcType, 0x41);
    let mut axp = Axpxx::new();
    let first = axp.init();
    assert_eq!(first, Action::Read(Register::IcType));
    assert_eq!(chip.run(&mut axp, first), Ok(Outcome::Done));
    assert_eq!(chip.ops, vec![Op::Read(0x03)]);
    assert!(axp.is_init());
    assert_eq!(axp.chip_id(), ChipId::Axp202);
    assert_eq!(axp.pending(), Pending::Idle);
}

#[test]
fn init_keeps_an_unknown_chip_without_error() {
    let axp = identified(0x99);
    assert!(axp.is_init());
    assert_eq!(axp.chip_id(), ChipId::Unknown);
    assert_eq!(identified(0x03).chip_id(), ChipId::Axp192);
    assert_eq!(identified(0xAD).chip_id(), ChipId::Axp173);
}

#[test]
fn init_that_fails_leaves_the_chip_unidentified() {
    let mut chip = FakeChip::new().with(Register::IcType, 0x41);
    chip.healthy = Some(0);
    let mut axp = Axpxx::new();
    let first = axp.init();
    assert_eq!(chip.run(&mut axp, first), Err(Nack));
    assert!(!axp.is_init());
    assert_eq!(axp.chip_id(), ChipId::Unknown);
    assert_eq!(axp.pending(), Pending::Idle);
}

#[test]
fn interrupt_line_setup() {
    let line = Axpxx::new().init_irq();
    assert_eq!(line.pin, 35);
    assert_eq!(line.pin, GPIO_INTR);
    assert_eq!(line.edge, Edge::Falling);
    assert!(!line.pull_up);
    assert!(!line.pull_down);
}

#[test]
fn set_rail_on_keeps_the_others_and_never_writes_zero() {
    let mut axp = identified(0x41);
    let mut chip = FakeChip::new().with(Register::Ldo234Dc23Ctl, 0b0000_0001);
    let first = axp.set_power_output(Power::dc_dc3(), State::On);
    assert_eq!(chip.run(&mut axp, first), Ok(Outcome::Level(0b0000_0011)));
    assert_eq!(chip.get(Register::Ldo234Dc23Ctl), 0b0000_0011);
    assert_eq!(chip.ops, vec![Op::Read(0x12), Op::Write(0x12, 0b0000_0011), Op::Read(0x12)]);
    assert_eq!(chip.delays, vec![10]);
    assert_eq!(RAIL_DELAY_MS, 10);
    for op in &chip.ops {
        assert!(!matches!(op, Op::Write(_, 0)));
    }
}

#[test]
fn set_rail_waits_while_the_register_reads_zero() {
    let mut axp = identified(0x41);
    let mut chip = FakeChip::new();
    chip.zero_reads = 3;
    chip.late_rail = 0b0000_0100;
    let mut action = axp.set_power_output(Power::exten(), State::On);
    let mut zeros = 0;
    // While zero is read back the handle only pauses and reads again.
    while zeros < 3 {
        assert_eq!(action, Action::Read(Register::Ldo234Dc23Ctl));
        let value = chip.read(Register::Ldo234Dc23Ctl).unwrap();
        assert_eq!(value, 0);
        zeros += 1;
        action = axp.resume::<Nack>(Ok(Reply::Value(value))).unwrap();
        assert_eq!(action, Action::Delay(10));
        assert_eq!(axp.pending(), Pending::RailBackoff { channel: Power::exten(), enable: true });
        action = axp.resume::<Nack>(Ok(Reply::Done)).unwrap();
    }
    assert!(chip.ops.iter().all(|op| *op == Op::Read(0x12)));
    // The value that shows up late lets the operation go on.
    assert_eq!(chip.run(&mut axp, action), Ok(Outcome::Level(0b0000_0111)));
    assert_eq!(
        chip.ops,
        vec![
            Op::Read(0x12),
            Op::Read(0x12),
            Op::Read(0x12),
            Op::Read(0x12),
            Op::Write(0x12, 0b0000_0111),
            Op::Read(0x12),
        ]
    );
    assert_eq!(chip.delays, vec![10]);
}

#[test]
fn set_rail_counts_every_pause() {
    let mut axp = identified(0x03);
    let mut chip = FakeChip::new();
    chip.zero_reads = 2;
    chip.late_rail = 0b0100_0000;
    let first = axp.set_power_output(Power::ldo2(), State::On);
    assert_eq!(chip.run(&mut axp, first), Ok(Outcome::Level(0b0100_0100)));
    assert_eq!(chip.delays, vec![10, 10, 10]);
    assert_eq!(chip.ops.len(), 5);
}

#[test]
fn set_rail_off_removes_only_what_was_asked() {
    let mut axp = identified(0x03);
    let mut chip = FakeChip::new().with(Register::Ldo234Dc23Ctl, 0b0111_0101);
    let first = axp.set_power_output(Power::ldo2().union(Power::ldo4()), State::Off);
    assert_eq!(chip.run(&mut axp, first), Ok(Outcome::Level(0b0111_0001)));
    assert_eq!(chip.get(Register::Ldo234Dc23Ctl), 0b0111_0001);
}

#[test]
fn axp202_keeps_dc_dc3_on_whatever_is_asked() {
    let mut axp = identified(0x41);
    let mut chip = FakeChip::new().with(Register::Ldo234Dc23Ctl, 0b0000_0010);
    let first = axp.set_power_output(Power::dc_dc3(), State::Off);
    assert_eq!(chip.run(&mut axp, first), Ok(Outcome::Level(0b0000_0010)));
    let mut chip = FakeChip::new().with(Register::Ldo234Dc23Ctl, 0b0000_0100);
    let first = axp.set_power_output(Power::ldo2(), State::Off);
    assert_eq!(chip.run(&mut axp, first), Ok(Outcome::Level(0b0000_0010)));
    let mut chip = FakeChip::new().with(Register::Ldo234Dc23Ctl, 0b0000_0100);
    let first = axp.set_power_output(Power::exten(), State::On);
    assert_eq!(chip.run(&mut axp, first), Ok(Outcome::Level(0b0000_0111)));
}

#[test]
fn other_chips_have_no_forced_rail() {
    for code in [0x03u8, 0xAD, 0x99] {
        let mut axp = identified(code);
        let mut chip = FakeChip::new().with(Register::Ldo234Dc23Ctl, 0b0000_0100);
        let first = axp.set_power_output(Power::ldo2(), State::Off);
        assert_eq!(chip.run(&mut axp, first), Ok(Outcome::Level(0)));
        assert_eq!(chip.ops[1], Op::Write(0x12, 0));
    }
}

#[test]
fn set_rail_does_not_hold_the_readback_against_what_was_written() {
    let mut axp = identified(0x41);
    let mut action = axp.set_power_output(Power::exten(), State::On);
    assert_eq!(action, Action::Read(Register::Ldo234Dc23Ctl));
    action = axp.resume::<Nack>(Ok(Reply::Value(0b1000))).unwrap();
    assert_eq!(action, Action::Write(Register::Ldo234Dc23Ctl, 0b1011));
    action = axp.resume::<Nack>(Ok(Reply::Done)).unwrap();
    assert_eq!(action, Action::Delay(10));
    action = axp.resume::<Nack>(Ok(Reply::Done)).unwrap();
    assert_eq!(action, Action::Read(Register::Ldo234Dc23Ctl));
    action = axp.resume::<Nack>(Ok(Reply::Value(0x55))).unwrap();
    assert_eq!(action, Action::Finished(Outcome::Level(0x55)));
    assert_eq!(axp.pending(), Pending::Idle);
}

#[test]
fn set_rail_hands_a_bus_error_back_at_once() {
    for healthy in 0..3 {
        let mut axp = identified(0x41);
        let mut chip = FakeChip::new().with(Register::Ldo234Dc23Ctl, 1);
        chip.healthy = Some(healthy);
        let first = axp.set_power_output(Power::ldo2(), State::On);
        assert_eq!(chip.run(&mut axp, first), Err(Nack));
        assert_eq!(chip.ops.len(), healthy);
        assert_eq!(axp.pending(), Pending::Idle);
        assert_eq!(axp.chip_id(), ChipId::Axp202);
    }
}

#[test]
fn debug_power_output_reports_the_register() {
    let mut axp = Axpxx::new();
    let mut chip = FakeChip::new().with(Register::Ldo234Dc23Ctl, 0x5A);
    let first = axp.debug_power_output();
    assert_eq!(first, Action::Read(Register::Ldo234Dc23Ctl));
    assert_eq!(chip.run(&mut axp, first), Ok(Outcome::Level(0x5A)));
    assert_eq!(chip.ops, vec![Op::Read(0x12)]);
    assert!(chip.delays.is_empty());
}

#[test]
fn button_query_without_interrupt_leaves_the_bus_alone() {
    let mut axp = Axpxx::new();
    let mut chip = FakeChip::new().with(Register::StatusIrq3, 0b0000_0010);
    let latch = InterruptLatch::new();
    let first = axp.is_button_pressed(&latch);
    assert_eq!(first, Action::Finished(Outcome::Pressed(false)));
    assert_eq!(chip.run(&mut axp, first), Ok(Outcome::Pressed(false)));
    assert!(chip.ops.is_empty());
    assert_eq!(chip.get(Register::StatusIrq3), 0b0000_0010);
    assert_eq!(axp.pending(), Pending::Idle);
    assert_eq!(axp.poll_button(false), Action::Finished(Outcome::Pressed(false)));
}

#[test]
fn button_query_after_interrupt_reads_then_clears() {
    let mut axp = Axpxx::new();
    let mut chip = FakeChip::new().with(Register::StatusIrq3, 0b0000_0010);
    let latch = InterruptLatch::new();
    latch.signal();
    let first = axp.is_button_pressed(&latch);
    assert_eq!(first, Action::Read(Register::StatusIrq1));
    assert_eq!(chip.run(&mut axp, first), Ok(Outcome::Pressed(true)));
    let mut expected = STATUS_READS.to_vec();
    expected.extend_from_slice(&STATUS_CLEARS);
    assert_eq!(chip.ops, expected);
    assert_eq!(chip.get(Register::StatusIrq3), 0);
    // The latch was consumed: the next query is answered without the bus.
    let again = axp.is_button_pressed(&latch);
    assert_eq!(again, Action::Finished(Outcome::Pressed(false)));
    assert_eq!(chip.ops.len(), 10);
}

#[test]
fn button_query_drops_the_other_events() {
    let mut axp = Axpxx::new();
    let mut chip = FakeChip::new()
        .with(Register::StatusIrq1, 0xFF)
        .with(Register::StatusIrq3, 0b1111_1101)
        .with(Register::StatusIrq5, 0x01);
    let first = axp.poll_button(true);
    assert_eq!(chip.run(&mut axp, first), Ok(Outcome::Pressed(false)));
    assert_eq!(chip.ops.len(), 10);
    for group in [IrqGroup::Int1, IrqGroup::Int3, IrqGroup::Int5] {
        assert_eq!(chip.get(Register::status_irq(group)), 0);
    }
}

#[test]
fn read_irq_reports_what_was_latched() {
    let mut axp = Axpxx::new();
    let mut chip = FakeChip::new()
        .with(Register::StatusIrq1, 0x81)
        .with(Register::StatusIrq2, 0x02)
        .with(Register::StatusIrq3, 0x02)
        .with(Register::StatusIrq4, 0x40)
        .with(Register::StatusIrq5, 0xFF);
    let first = axp.read_irq();
    let expected = EventsIrq::from_int1_u8(0x81)
        .union(EventsIrq::from_int2_u8(0x02))
        .union(EventsIrq::from_int3_u8(0x02))
        .union(EventsIrq::from_int4_u8(0x40))
        .union(EventsIrq::from_int5_u8(0xFF));
    assert_eq!(chip.run(&mut axp, first), Ok(Outcome::Events(expected)));
    let mut ops = STATUS_READS.to_vec();
    ops.extend_from_slice(&STATUS_CLEARS);
    assert_eq!(chip.ops, ops);
}

#[test]
fn read_irq_twice_finds_nothing_the_second_time() {
    let mut axp = Axpxx::new();
    let mut chip = FakeChip::new()
        .with(Register::StatusIrq1, 0x81)
        .with(Register::StatusIrq3, 0x02)
        .with(Register::StatusIrq5, 0xFF);
    let first = axp.read_irq();
    assert!(matches!(chip.run(&mut axp, first), Ok(Outcome::Events(m)) if !m.is_none()));
    let second = axp.read_irq();
    assert_eq!(chip.run(&mut axp, second), Ok(Outcome::Events(EventsIrq::none())));
}

#[test]
fn read_irq_that_fails_has_cleared_nothing_it_did_not_reach() {
    let mut axp = Axpxx::new();
    let mut chip = FakeChip::new().with(Register::StatusIrq2, 0x02).with(Register::StatusIrq5, 0x10);
    chip.healthy = Some(7);
    let first = axp.read_irq();
    assert_eq!(chip.run(&mut axp, first), Err(Nack));
    assert_eq!(chip.ops.len(), 7);
    assert_eq!(chip.get(Register::StatusIrq2), 0);
    assert_eq!(chip.get(Register::StatusIrq5), 0x10);
    assert_eq!(axp.pending(), Pending::Idle);
}

#[test]
fn clear_irq_writes_all_five_status_registers() {
    let mut axp = Axpxx::new();
    let mut chip = FakeChip::new().with(Register::StatusIrq4, 0x3C);
    let first = axp.clear_irq();
    assert_eq!(first, Action::Write(Register::StatusIrq1, CLEAR_ALL));
    assert_eq!(CLEAR_ALL, 0xFF);
    assert_eq!(chip.run(&mut axp, first), Ok(Outcome::Done));
    assert_eq!(chip.ops, STATUS_CLEARS.to_vec());
    assert_eq!(chip.get(Register::StatusIrq4), 0);
}

#[test]
fn toggle_irq_on_touches_only_the_groups_asked_for() {
    let mut axp = Axpxx::new();
    let mut chip = FakeChip::new()
        .with(Register::EnabledIrq1, 0xD8)
        .with(Register::EnabledIrq3, 0b0000_0001);
    let first = axp.toggle_irq(EventsIrq::power_key_short_press(), true);
    assert_eq!(first, Action::Read(Register::EnabledIrq3));
    assert_eq!(chip.run(&mut axp, first), Ok(Outcome::Done));
    assert_eq!(chip.ops, vec![Op::Read(0x42), Op::Write(0x42, 0b0000_0011)]);
    assert_eq!(chip.get(Register::EnabledIrq1), 0xD8);
}

#[test]
fn toggle_irq_off_clears_only_the_events_asked_for() {
    let mut axp = Axpxx::new();
    let mut chip = FakeChip::new()
        .with(Register::EnabledIrq1, 0xFF)
        .with(Register::EnabledIrq3, 0b0000_0111)
        .with(Register::EnabledIrq5, 0xF0);
    let irqs = EventsIrq::power_key_short_press()
        .union(EventsIrq::from_int1_u8(0x0F))
        .union(EventsIrq::from_int5_u8(0x3C));
    let first = axp.toggle_irq(irqs, false);
    assert_eq!(chip.run(&mut axp, first), Ok(Outcome::Done));
    assert_eq!(
        chip.ops,
        vec![
            Op::Read(0x40),
            Op::Write(0x40, 0xF0),
            Op::Read(0x42),
            Op::Write(0x42, 0b0000_0101),
            Op::Read(0x45),
            Op::Write(0x45, 0xC0),
        ]
    );
}

#[test]
fn toggle_irq_treats_every_group_alike() {
    for (i, group) in
        [IrqGroup::Int1, IrqGroup::Int2, IrqGroup::Int3, IrqGroup::Int4, IrqGroup::Int5]
            .into_iter()
            .enumerate()
    {
        let reg = Register::enabled_irq(group);
        for enable in [true, false] {
            let mut axp = Axpxx::new();
            let mut chip = FakeChip::new().with(reg, 0b0110_0110);
            let first = axp.toggle_irq(EventsIrq::from_group_u8(group, 0b0011_1100), enable);
            assert_eq!(chip.run(&mut axp, first), Ok(Outcome::Done));
            let expected = if enable { 0b0111_1110 } else { 0b0100_0010 };
            assert_eq!(chip.get(reg), expected, "group {}", i + 1);
            assert_eq!(chip.ops.len(), 2);
        }
    }
}

#[test]
fn toggle_irq_of_all_events_goes_through_the_groups_in_order() {
    let mut axp = Axpxx::new();
    let mut chip = FakeChip::new();
    let first = axp.toggle_irq(EventsIrq::all(), true);
    assert_eq!(chip.run(&mut axp, first), Ok(Outcome::Done));
    let addrs = [0x40u8, 0x41, 0x42, 0x43, 0x45];
    let mut expected = Vec::new();
    for addr in addrs {
        expected.push(Op::Read(addr));
        expected.push(Op::Write(addr, 0xFF));
    }
    assert_eq!(chip.ops, expected);
}

#[test]
fn toggle_irq_of_nothing_asks_nothing() {
    let mut axp = Axpxx::new();
    let first = axp.toggle_irq(EventsIrq::none(), true);
    assert_eq!(first, Action::Finished(Outcome::Done));
    assert_eq!(axp.pending(), Pending::Idle);
}

#[test]
fn toggle_irq_that_fails_keeps_what_it_had_written() {
    let mut axp = Axpxx::new();
    let mut chip = FakeChip::new();
    chip.healthy = Some(3);
    let irqs = EventsIrq::from_int1_u8(0x01).union(EventsIrq::from_int2_u8(0x01));
    let first = axp.toggle_irq(irqs, true);
    assert_eq!(chip.run(&mut axp, first), Err(Nack));
    assert_eq!(chip.ops, vec![Op::Read(0x40), Op::Write(0x40, 0x01), Op::Read(0x41)]);
    assert_eq!(chip.get(Register::EnabledIrq1), 0x01);
    assert_eq!(chip.get(Register::EnabledIrq2), 0x00);
    assert_eq!(axp.pending(), Pending::Idle);
}

#[test]
fn a_bus_error_comes_back_as_it_went_in() {
    let mut axp = Axpxx::new();
    axp.clear_irq();
    assert_eq!(axp.resume(Err("arbitration lost")), Err("arbitration lost"));
    assert_eq!(axp.pending(), Pending::Idle);
    assert_eq!(axp.resume(Err(7u32)), Err(7u32));
    assert_eq!(axp.resume::<Nack>(Ok(Reply::Done)), Ok(Action::Idle));
    assert_eq!(axp.resume::<Nack>(Ok(Reply::Value(1))), Ok(Action::Idle));
}

#[test]
fn a_reply_of_the_wrong_kind_repeats_the_request() {
    let mut axp = Axpxx::new();
    let first = axp.init();
    assert_eq!(axp.resume::<Nack>(Ok(Reply::Done)), Ok(first));
    assert_eq!(axp.pending(), Pending::Probe);
    assert!(!axp.is_init());
    let first = axp.clear_irq();
    assert_eq!(axp.resume::<Nack>(Ok(Reply::Value(0x41))), Ok(first));
    assert_eq!(axp.request(), first);
    assert_eq!(
        axp.pending(),
        Pending::Clear { group: IrqGroup::Int1, outcome: Outcome::Done }
    );
}

#[test]
fn a_new_operation_replaces_the_one_under_way() {
    let mut axp = Axpxx::new();
    axp.clear_irq();
    let first = axp.debug_power_output();
    assert_eq!(first, Action::Read(Register::Ldo234Dc23Ctl));
    assert_eq!(axp.pending(), Pending::RailCheck);
    assert_eq!(
        axp.resume::<Nack>(Ok(Reply::Value(9))),
        Ok(Action::Finished(Outcome::Level(9)))
    );
}

#[test]
fn latch_holds_one_interrupt_however_many_came() {
    let latch = InterruptLatch::new();
    assert!(!latch.consume());
    latch.signal();
    latch.signal();
    latch.signal();
    assert!(latch.consume());
    assert!(!latch.consume());
    latch.signal();
    assert!(latch.consume());
    assert!(!latch.consume());
}

#[test]
fn a_read_sends_the_address_and_reads_one_byte() {
    let axp = Axpxx::new();
    assert_eq!(
        axp.transfer(Action::Read(Register::StatusIrq3)),
        Some(Transfer::WriteRead { addr: 0x35, out: [0x4A] })
    );
    assert_eq!(
        axp.transfer(Action::Read(Register::IcType)),
        Some(Transfer::WriteRead { addr: 0x35, out: [0x03] })
    );
}

#[test]
fn a_write_sends_the_address_and_then_the_byte() {
    let axp = Axpxx::new();
    assert_eq!(
        axp.transfer(Action::Write(Register::Ldo234Dc23Ctl, 0x03)),
        Some(Transfer::Write { addr: 0x35, out: [0x12, 0x03] })
    );
    assert_eq!(
        axp.transfer(Action::Write(Register::StatusIrq5, 0xFF)),
        Some(Transfer::Write { addr: 0x35, out: [0x4C, 0xFF] })
    );
}

#[test]
fn a_pause_puts_nothing_on_the_bus() {
    let axp = Axpxx::new();
    assert_eq!(axp.transfer(Action::Delay(10)), None);
    assert_eq!(axp.transfer(Action::Idle), None);
    assert_eq!(axp.transfer(Action::Finished(Outcome::Done)), None);
}
