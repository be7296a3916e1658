//! Whole operations, held against a model of the chip.
//!
//! The model is a chip whose registers change only when they are written. A
//! run performs, one after the other, the transactions that the handle asks
//! for, and hands each result back.

use crate::driver::{
    rail_byte, request, status_outcome, toggled_byte, Action, DriverState, Outcome, Pending,
    Reply, CLEAR_ALL, RAIL_DELAY_MS,
};
use crate::power::{Power, State};
use crate::bits::{lemma_bits_byte, lemma_bits_zero, raised, span};
use crate::chip::chip_of;
use crate::events::{byte_events, EventsIrq, IrqGroup, POWER_KEY_SHORT_PRESS};
use crate::register::Register;
use vstd::prelude::*;

verus! {

/// Whether `reg` is one of the five registers that latch events.
pub open spec fn is_status(reg: Register) -> bool {
    reg is StatusIrq1 || reg is StatusIrq2 || reg is StatusIrq3 || reg is StatusIrq4
        || reg is StatusIrq5
}

/// What a status register holds after `value` has been written to it: the
/// events written as one are acknowledged and leave the register.
pub open spec fn acknowledged(held: u8, value: u8) -> u8 {
    held & !value
}

/// A chip, as the bytes its registers hold.
pub struct Chip {
    pub regs: Map<Register, u8>,
}

impl Chip {
    /// The byte that a read of `reg` returns.
    pub open spec fn read(self, reg: Register) -> u8 {
        self.regs[reg]
    }

    /// The chip after `value` has been written to `reg`.
    pub open spec fn write(self, reg: Register, value: u8) -> Chip {
        if is_status(reg) {
            Chip { regs: self.regs.insert(reg, acknowledged(self.regs[reg], value)) }
        } else {
            Chip { regs: self.regs.insert(reg, value) }
        }
    }

    /// The chip after `action` has been performed on it, and the reply that
    /// goes back to the handle.
    pub open spec fn perform(self, action: Action) -> (Chip, Reply) {
        match action {
            Action::Read(reg) => (self, Reply::Value(self.read(reg))),
            Action::Write(reg, value) => (self.write(reg, value), Reply::Done),
            _ => (self, Reply::Done),
        }
    }
}

/// Where a run has come to.
#[verifier::ext_equal]
pub struct Run {
    /// The handle at the end of the run.
    pub driver: DriverState,
    /// The chip at the end of the run.
    pub chip: Chip,
    /// The transactions and pauses that were performed, in order.
    pub trace: Seq<Action>,
    /// What the operation reported, if it has finished.
    pub outcome: Option<Outcome>,
}

/// The run that starts with `action`, the last thing `driver` has asked for,
/// and performs at most `steps` transactions and pauses on `chip`.
pub open spec fn run(driver: DriverState, action: Action, chip: Chip, steps: nat) -> Run
    decreases steps,
{
    match action {
        Action::Finished(outcome) => Run {
            driver,
            chip,
            trace: Seq::empty(),
            outcome: Some(outcome),
        },
        Action::Idle => Run { driver, chip, trace: Seq::empty(), outcome: None },
        _ => if steps == 0 {
            Run { driver, chip, trace: Seq::empty(), outcome: None }
        } else {
            let (chip_after, reply) = chip.perform(action);
            let (driver_after, next) = driver.step(reply);
            let rest = run(driver_after, next, chip_after, (steps - 1) as nat);
            Run {
                driver: rest.driver,
                chip: rest.chip,
                trace: seq![action] + rest.trace,
                outcome: rest.outcome,
            }
        },
    }
}

/// The run of an operation from its start.
pub open spec fn run_from(start: (DriverState, Action), chip: Chip, steps: nat) -> Run {
    run(start.0, start.1, chip, steps)
}

/// Number of groups from `group` to the last.
pub open spec fn groups_left(group: IrqGroup) -> nat {
    match group {
        IrqGroup::Int1 => 5,
        IrqGroup::Int2 => 4,
        IrqGroup::Int3 => 3,
        IrqGroup::Int4 => 2,
        IrqGroup::Int5 => 1,
    }
}

/// The writes that clear the status registers from that of `group` on.
pub open spec fn clear_trace(group: IrqGroup) -> Seq<Action>
    decreases 40 - group.base(),
{
    let head = seq![Action::Write(Register::status_irq(group), CLEAR_ALL)];
    match group.next() {
        Some(n) => head + clear_trace(n),
        None => head,
    }
}

/// The chip with the status registers cleared from that of `group` on.
pub open spec fn cleared_from(chip: Chip, group: IrqGroup) -> Chip
    decreases 40 - group.base(),
{
    let chip = chip.write(Register::status_irq(group), CLEAR_ALL);
    match group.next() {
        Some(n) => cleared_from(chip, n),
        None => chip,
    }
}

/// The reads of the status registers from that of `group` on.
pub open spec fn status_trace(group: IrqGroup) -> Seq<Action>
    decreases 40 - group.base(),
{
    let head = seq![Action::Read(Register::status_irq(group))];
    match group.next() {
        Some(n) => head + status_trace(n),
        None => head,
    }
}

/// `seen`, and with it the events that the status registers hold from that
/// of `group` on.
pub open spec fn latched_from(chip: Chip, group: IrqGroup, seen: EventsIrq) -> EventsIrq
    decreases 40 - group.base(),
{
    let seen = seen.union(
        EventsIrq::from_group_u8(group, chip.read(Register::status_irq(group))),
    );
    match group.next() {
        Some(n) => latched_from(chip, n, seen),
        None => seen,
    }
}

/// The events that the five status registers of the chip hold.
pub open spec fn latched(chip: Chip) -> EventsIrq {
    latched_from(chip, IrqGroup::Int1, EventsIrq::none())
}

/// Writing ones everywhere acknowledges every event of a status register.
proof fn lemma_acknowledged_all(held: u8)
    ensures
        acknowledged(held, CLEAR_ALL) == 0,
{
    assert(held & !0xFFu8 == 0) by (bit_vector);
}

/// Clearing from `group` on takes as many writes as there are groups left,
/// and then reports `outcome`.
proof fn lemma_clear_from(
    driver: DriverState,
    group: IrqGroup,
    outcome: Outcome,
    chip: Chip,
    steps: nat,
)
    requires
        driver.pending == (Pending::Clear { group, outcome }),
        steps >= groups_left(group),
    ensures
        run(driver, request(driver.pending), chip, steps) == (Run {
            driver: driver.abandon(),
            chip: cleared_from(chip, group),
            trace: clear_trace(group),
            outcome: Some(outcome),
        }),
    decreases 40 - group.base(),
{
    let action = request(driver.pending);
    let (chip_after, reply) = chip.perform(action);
    let (driver_after, next) = driver.step(reply);
    let rest = run(driver_after, next, chip_after, (steps - 1) as nat);
    let all = run(driver, action, chip, steps);
    let expected = Run {
        driver: driver.abandon(),
        chip: cleared_from(chip, group),
        trace: clear_trace(group),
        outcome: Some(outcome),
    };
    match group.next() {
        Some(n) => {
            lemma_clear_from(driver_after, n, outcome, chip_after, (steps - 1) as nat);
        },
        None => {
            assert(rest.trace =~= Seq::<Action>::empty());
        },
    }
    assert(all.trace =~= expected.trace);
    assert(all =~= expected);
}

/// Reading the status registers from `group` on, then clearing all five,
/// takes as many reads as there are groups left and five writes, and reports
/// what was read.
proof fn lemma_status_from(
    driver: DriverState,
    group: IrqGroup,
    seen: EventsIrq,
    button: bool,
    chip: Chip,
    steps: nat,
)
    requires
        driver.pending == (Pending::Status { group, seen, button }),
        steps >= groups_left(group) + 5,
    ensures
        run(driver, request(driver.pending), chip, steps) == (Run {
            driver: driver.abandon(),
            chip: cleared_from(chip, IrqGroup::Int1),
            trace: status_trace(group) + clear_trace(IrqGroup::Int1),
            outcome: Some(status_outcome(latched_from(chip, group, seen), button)),
        }),
    decreases 40 - group.base(),
{
    let action = request(driver.pending);
    let (chip_after, reply) = chip.perform(action);
    let (driver_after, next) = driver.step(reply);
    let rest = run(driver_after, next, chip_after, (steps - 1) as nat);
    let all = run(driver, action, chip, steps);
    let expected = Run {
        driver: driver.abandon(),
        chip: cleared_from(chip, IrqGroup::Int1),
        trace: status_trace(group) + clear_trace(IrqGroup::Int1),
        outcome: Some(status_outcome(latched_from(chip, group, seen), button)),
    };
    let seen_after = seen.union(
        EventsIrq::from_group_u8(group, chip.read(Register::status_irq(group))),
    );
    match group.next() {
        Some(n) => {
            lemma_status_from(driver_after, n, seen_after, button, chip_after, (steps - 1) as nat);
        },
        None => {
            lemma_clear_from(
                driver_after,
                IrqGroup::Int1,
                status_outcome(seen_after, button),
                chip_after,
                (steps - 1) as nat,
            );
        },
    }
    assert(all.trace =~= expected.trace);
    assert(all =~= expected);
}

/// What clearing all five status registers leaves in the chip: the status
/// registers hold nothing, and every other register holds what it held.
pub proof fn lemma_cleared(chip: Chip)
    ensures
        forall|reg: Register|
            is_status(reg) ==> #[trigger] cleared_from(chip, IrqGroup::Int1).read(reg) == 0,
        forall|reg: Register|
            !is_status(reg) ==> #[trigger] cleared_from(chip, IrqGroup::Int1).read(reg)
                == chip.read(reg),
{
    let c1 = chip.write(Register::StatusIrq1, CLEAR_ALL);
    let c2 = c1.write(Register::StatusIrq2, CLEAR_ALL);
    let c3 = c2.write(Register::StatusIrq3, CLEAR_ALL);
    let c4 = c3.write(Register::StatusIrq4, CLEAR_ALL);
    let c5 = c4.write(Register::StatusIrq5, CLEAR_ALL);
    assert(cleared_from(c4, IrqGroup::Int5) == c5);
    assert(cleared_from(c3, IrqGroup::Int4) == c5);
    assert(cleared_from(c2, IrqGroup::Int3) == c5);
    assert(cleared_from(c1, IrqGroup::Int2) == c5);
    assert(cleared_from(chip, IrqGroup::Int1) == c5);
    lemma_acknowledged_all(chip.read(Register::StatusIrq1));
    lemma_acknowledged_all(c1.read(Register::StatusIrq2));
    lemma_acknowledged_all(c2.read(Register::StatusIrq3));
    lemma_acknowledged_all(c3.read(Register::StatusIrq4));
    lemma_acknowledged_all(c4.read(Register::StatusIrq5));
}

/// The five writes that clear the status registers, in order.
pub proof fn lemma_clear_trace()
    ensures
        clear_trace(IrqGroup::Int1) == seq![
            Action::Write(Register::StatusIrq1, CLEAR_ALL),
            Action::Write(Register::StatusIrq2, CLEAR_ALL),
            Action::Write(Register::StatusIrq3, CLEAR_ALL),
            Action::Write(Register::StatusIrq4, CLEAR_ALL),
            Action::Write(Register::StatusIrq5, CLEAR_ALL),
        ],
{
    assert(clear_trace(IrqGroup::Int5) =~= seq![Action::Write(Register::StatusIrq5, CLEAR_ALL)]);
    assert(clear_trace(IrqGroup::Int4) =~= seq![
        Action::Write(Register::StatusIrq4, CLEAR_ALL),
        Action::Write(Register::StatusIrq5, CLEAR_ALL),
    ]);
    assert(clear_trace(IrqGroup::Int3) =~= seq![
        Action::Write(Register::StatusIrq3, CLEAR_ALL),
        Action::Write(Register::StatusIrq4, CLEAR_ALL),
        Action::Write(Register::StatusIrq5, CLEAR_ALL),
    ]);
    assert(clear_trace(IrqGroup::Int2) =~= seq![
        Action::Write(Register::StatusIrq2, CLEAR_ALL),
        Action::Write(Register::StatusIrq3, CLEAR_ALL),
        Action::Write(Register::StatusIrq4, CLEAR_ALL),
        Action::Write(Register::StatusIrq5, CLEAR_ALL),
    ]);
    assert(clear_trace(IrqGroup::Int1) =~= seq![
        Action::Write(Register::StatusIrq1, CLEAR_ALL),
        Action::Write(Register::StatusIrq2, CLEAR_ALL),
        Action::Write(Register::StatusIrq3, CLEAR_ALL),
        Action::Write(Register::StatusIrq4, CLEAR_ALL),
        Action::Write(Register::StatusIrq5, CLEAR_ALL),
    ]);
}

/// The five reads of the status registers, in order.
pub proof fn lemma_status_trace()
    ensures
        status_trace(IrqGroup::Int1) == seq![
            Action::Read(Register::StatusIrq1),
            Action::Read(Register::StatusIrq2),
            Action::Read(Register::StatusIrq3),
            Action::Read(Register::StatusIrq4),
            Action::Read(Register::StatusIrq5),
        ],
{
    assert(status_trace(IrqGroup::Int5) =~= seq![Action::Read(Register::StatusIrq5)]);
    assert(status_trace(IrqGroup::Int4) =~= seq![
        Action::Read(Register::StatusIrq4),
        Action::Read(Register::StatusIrq5),
    ]);
    assert(status_trace(IrqGroup::Int3) =~= seq![
        Action::Read(Register::StatusIrq3),
        Action::Read(Register::StatusIrq4),
        Action::Read(Register::StatusIrq5),
    ]);
    assert(status_trace(IrqGroup::Int2) =~= seq![
        Action::Read(Register::StatusIrq2),
        Action::Read(Register::StatusIrq3),
        Action::Read(Register::StatusIrq4),
        Action::Read(Register::StatusIrq5),
    ]);
    assert(status_trace(IrqGroup::Int1) =~= seq![
        Action::Read(Register::StatusIrq1),
        Action::Read(Register::StatusIrq2),
        Action::Read(Register::StatusIrq3),
        Action::Read(Register::StatusIrq4),
        Action::Read(Register::StatusIrq5),
    ]);
}

/// The events that the status registers hold, register by register: bit `k`
/// of the register of a group is the group's event number `k`.
pub proof fn lemma_latched(chip: Chip)
    ensures
        latched(chip)@ == raised(byte_events(chip.read(Register::StatusIrq1)), 0).union(
            raised(byte_events(chip.read(Register::StatusIrq2)), 8),
        ).union(raised(byte_events(chip.read(Register::StatusIrq3)), 16)).union(
            raised(byte_events(chip.read(Register::StatusIrq4)), 24),
        ).union(raised(byte_events(chip.read(Register::StatusIrq5)), 32)),
        latched(chip)@.contains(POWER_KEY_SHORT_PRESS as nat) == byte_events(
            chip.read(Register::StatusIrq3),
        ).contains(1),
        (forall|reg: Register| is_status(reg) ==> #[trigger] chip.read(reg) == 0) ==> latched(chip)
            == EventsIrq::none(),
{
    let none = EventsIrq::none();
    let e1 = EventsIrq::from_group_u8(IrqGroup::Int1, chip.read(Register::StatusIrq1));
    let e2 = EventsIrq::from_group_u8(IrqGroup::Int2, chip.read(Register::StatusIrq2));
    let e3 = EventsIrq::from_group_u8(IrqGroup::Int3, chip.read(Register::StatusIrq3));
    let e4 = EventsIrq::from_group_u8(IrqGroup::Int4, chip.read(Register::StatusIrq4));
    let e5 = EventsIrq::from_group_u8(IrqGroup::Int5, chip.read(Register::StatusIrq5));
    let s1 = none.union(e1);
    let s2 = s1.union(e2);
    let s3 = s2.union(e3);
    let s4 = s3.union(e4);
    let s5 = s4.union(e5);
    assert(latched_from(chip, IrqGroup::Int5, s4) == s5);
    assert(latched_from(chip, IrqGroup::Int4, s3) == s5);
    assert(latched_from(chip, IrqGroup::Int3, s2) == s5);
    assert(latched_from(chip, IrqGroup::Int2, s1) == s5);
    assert(latched(chip) == s5);
    none.lemma_views(e1);
    s1.lemma_views(e2);
    s2.lemma_views(e3);
    s3.lemma_views(e4);
    s4.lemma_views(e5);
    none.lemma_group_views(IrqGroup::Int1, chip.read(Register::StatusIrq1));
    none.lemma_group_views(IrqGroup::Int2, chip.read(Register::StatusIrq2));
    none.lemma_group_views(IrqGroup::Int3, chip.read(Register::StatusIrq3));
    none.lemma_group_views(IrqGroup::Int4, chip.read(Register::StatusIrq4));
    none.lemma_group_views(IrqGroup::Int5, chip.read(Register::StatusIrq5));
    let r1 = raised(byte_events(chip.read(Register::StatusIrq1)), 0);
    let r2 = raised(byte_events(chip.read(Register::StatusIrq2)), 8);
    let r3 = raised(byte_events(chip.read(Register::StatusIrq3)), 16);
    let r4 = raised(byte_events(chip.read(Register::StatusIrq4)), 24);
    let r5 = raised(byte_events(chip.read(Register::StatusIrq5)), 32);
    assert(s5@ =~= r1.union(r2).union(r3).union(r4).union(r5));
    lemma_bits_byte(chip.read(Register::StatusIrq1));
    lemma_bits_byte(chip.read(Register::StatusIrq2));
    lemma_bits_byte(chip.read(Register::StatusIrq3));
    lemma_bits_byte(chip.read(Register::StatusIrq4));
    lemma_bits_byte(chip.read(Register::StatusIrq5));
    assert(!r1.contains(17)) by {
        assert(!span(0, 8).contains(17));
    }
    assert(!r2.contains(17)) by {
        assert(!span(0, 8).contains(9));
    }
    assert(r3.contains(17) == byte_events(chip.read(Register::StatusIrq3)).contains(1));
    assert(!r4.contains(17));
    assert(!r5.contains(17));
    if forall|reg: Register| is_status(reg) ==> #[trigger] chip.read(reg) == 0 {
        assert(is_status(Register::StatusIrq1) && chip.read(Register::StatusIrq1) == 0);
        assert(is_status(Register::StatusIrq2) && chip.read(Register::StatusIrq2) == 0);
        assert(is_status(Register::StatusIrq3) && chip.read(Register::StatusIrq3) == 0);
        assert(is_status(Register::StatusIrq4) && chip.read(Register::StatusIrq4) == 0);
        assert(is_status(Register::StatusIrq5) && chip.read(Register::StatusIrq5) == 0);
        lemma_bits_zero();
        assert(s5@ =~= none@);
        s5.lemma_view_injective(none);
    }
}

/// Identifying the chip is one read of the identification register; the
/// variant that the byte names is kept in the handle.
pub proof fn lemma_init_run(driver: DriverState, chip: Chip, steps: nat)
    requires
        steps >= 1,
    ensures
        run_from(driver.begin_init(), chip, steps) == (Run {
            driver: DriverState {
                init: true,
                chip_id: chip_of(chip.read(Register::IcType)),
                pending: Pending::Idle,
                addr: driver.addr,
            },
            chip,
            trace: seq![Action::Read(Register::IcType)],
            outcome: Some(Outcome::Done),
        }),
{
    let start = driver.begin_init();
    let all = run_from(start, chip, steps);
    let (chip_after, reply) = chip.perform(start.1);
    let (driver_after, next) = start.0.step(reply);
    let rest = run(driver_after, next, chip_after, (steps - 1) as nat);
    assert(rest.trace =~= Seq::<Action>::empty());
    assert(all.trace =~= seq![Action::Read(Register::IcType)]);
    assert(all =~= Run {
        driver: DriverState {
            init: true,
            chip_id: chip_of(chip.read(Register::IcType)),
            pending: Pending::Idle,
            addr: driver.addr,
        },
        chip,
        trace: seq![Action::Read(Register::IcType)],
        outcome: Some(Outcome::Done),
    });
}

/// Clearing the latched events is five writes of ones, one to each status
/// register in order, whatever the registers hold. Afterwards the status
/// registers hold nothing and every other register holds what it held.
pub proof fn lemma_clear_irq_run(driver: DriverState, chip: Chip, steps: nat)
    requires
        steps >= 5,
    ensures
        ({
            let end = run_from(driver.begin_clear_irq(), chip, steps);
            &&& end.outcome == Some(Outcome::Done)
            &&& end.driver == driver.abandon()
            &&& end.trace == seq![
                Action::Write(Register::StatusIrq1, CLEAR_ALL),
                Action::Write(Register::StatusIrq2, CLEAR_ALL),
                Action::Write(Register::StatusIrq3, CLEAR_ALL),
                Action::Write(Register::StatusIrq4, CLEAR_ALL),
                Action::Write(Register::StatusIrq5, CLEAR_ALL),
            ]
            &&& forall|reg: Register| is_status(reg) ==> #[trigger] end.chip.read(reg) == 0
            &&& forall|reg: Register|
                !is_status(reg) ==> #[trigger] end.chip.read(reg) == chip.read(reg)
        }),
{
    let start = driver.begin_clear_irq();
    lemma_clear_from(start.0, IrqGroup::Int1, Outcome::Done, chip, steps);
    lemma_clear_trace();
    lemma_cleared(chip);
}

/// Reading the latched events is five reads, one of each status register in
/// order, followed by the five writes that clear them: the registers are
/// read before any is cleared. The events reported are those that the
/// registers held.
pub proof fn lemma_read_irq_run(driver: DriverState, chip: Chip, steps: nat)
    requires
        steps >= 10,
    ensures
        ({
            let end = run_from(driver.begin_read_irq(false), chip, steps);
            &&& end.outcome == Some(Outcome::Events(latched(chip)))
            &&& end.driver == driver.abandon()
            &&& end.trace == seq![
                Action::Read(Register::StatusIrq1),
                Action::Read(Register::StatusIrq2),
                Action::Read(Register::StatusIrq3),
                Action::Read(Register::StatusIrq4),
                Action::Read(Register::StatusIrq5),
                Action::Write(Register::StatusIrq1, CLEAR_ALL),
                Action::Write(Register::StatusIrq2, CLEAR_ALL),
                Action::Write(Register::StatusIrq3, CLEAR_ALL),
                Action::Write(Register::StatusIrq4, CLEAR_ALL),
                Action::Write(Register::StatusIrq5, CLEAR_ALL),
            ]
            &&& forall|reg: Register| is_status(reg) ==> #[trigger] end.chip.read(reg) == 0
            &&& forall|reg: Register|
                !is_status(reg) ==> #[trigger] end.chip.read(reg) == chip.read(reg)
        }),
{
    let start = driver.begin_read_irq(false);
    lemma_status_from(start.0, IrqGroup::Int1, EventsIrq::none(), false, chip, steps);
    lemma_clear_trace();
    lemma_status_trace();
    lemma_cleared(chip);
    let end = run_from(start, chip, steps);
    assert(end.trace =~= seq![
        Action::Read(Register::StatusIrq1),
        Action::Read(Register::StatusIrq2),
        Action::Read(Register::StatusIrq3),
        Action::Read(Register::StatusIrq4),
        Action::Read(Register::StatusIrq5),
        Action::Write(Register::StatusIrq1, CLEAR_ALL),
        Action::Write(Register::StatusIrq2, CLEAR_ALL),
        Action::Write(Register::StatusIrq3, CLEAR_ALL),
        Action::Write(Register::StatusIrq4, CLEAR_ALL),
        Action::Write(Register::StatusIrq5, CLEAR_ALL),
    ]);
}

/// Reading the latched events a second time, with nothing new latched in
/// between, reports no event.
pub proof fn lemma_read_irq_twice(driver: DriverState, chip: Chip, steps: nat)
    requires
        steps >= 10,
    ensures
        ({
            let first = run_from(driver.begin_read_irq(false), chip, steps);
            let second = run_from(first.driver.begin_read_irq(false), first.chip, steps);
            &&& first.outcome == Some(Outcome::Events(latched(chip)))
            &&& second.outcome == Some(Outcome::Events(EventsIrq::none()))
        }),
{
    lemma_read_irq_run(driver, chip, steps);
    let first = run_from(driver.begin_read_irq(false), chip, steps);
    lemma_read_irq_run(first.driver, first.chip, steps);
    lemma_latched(first.chip);
}

/// The query for the power key, where the interrupt line has not fired,
/// answers no without a single transaction. Where it has fired, the query is
/// five reads of the status registers followed by five writes of ones, and
/// answers whether the status register of the third group held the event of
/// the power key; whatever else was latched is cleared with it.
pub proof fn lemma_poll_button_run(driver: DriverState, chip: Chip, triggered: bool, steps: nat)
    requires
        steps >= 10,
    ensures
        ({
            let end = run_from(driver.begin_poll_button(triggered), chip, steps);
            &&& end.driver == driver.abandon()
            &&& !triggered ==> {
                &&& end.outcome == Some(Outcome::Pressed(false))
                &&& end.trace == Seq::<Action>::empty()
                &&& end.chip == chip
            }
            &&& triggered ==> {
                &&& end.outcome == Some(
                    Outcome::Pressed(byte_events(chip.read(Register::StatusIrq3)).contains(1)),
                )
                &&& end.trace == seq![
                    Action::Read(Register::StatusIrq1),
                    Action::Read(Register::StatusIrq2),
                    Action::Read(Register::StatusIrq3),
                    Action::Read(Register::StatusIrq4),
                    Action::Read(Register::StatusIrq5),
                    Action::Write(Register::StatusIrq1, CLEAR_ALL),
                    Action::Write(Register::StatusIrq2, CLEAR_ALL),
                    Action::Write(Register::StatusIrq3, CLEAR_ALL),
                    Action::Write(Register::StatusIrq4, CLEAR_ALL),
                    Action::Write(Register::StatusIrq5, CLEAR_ALL),
                ]
                &&& forall|reg: Register| is_status(reg) ==> #[trigger] end.chip.read(reg) == 0
                &&& forall|reg: Register|
                    !is_status(reg) ==> #[trigger] end.chip.read(reg) == chip.read(reg)
            }
        }),
{
    let start = driver.begin_poll_button(triggered);
    let end = run_from(start, chip, steps);
    if triggered {
        lemma_status_from(start.0, IrqGroup::Int1, EventsIrq::none(), true, chip, steps);
        lemma_clear_trace();
        lemma_status_trace();
        lemma_cleared(chip);
        lemma_latched(chip);
        let seen = latched(chip);
        seen.lemma_views(EventsIrq::power_key_short_press());
        assert(seen.intersects(EventsIrq::power_key_short_press()) == seen@.contains(
            POWER_KEY_SHORT_PRESS as nat,
        )) by {
            let key = EventsIrq::power_key_short_press()@;
            assert(key.contains(17));
            if seen@.contains(17) {
                assert(!seen@.disjoint(key));
            }
        }
        assert(end.trace =~= seq![
            Action::Read(Register::StatusIrq1),
            Action::Read(Register::StatusIrq2),
            Action::Read(Register::StatusIrq3),
            Action::Read(Register::StatusIrq4),
            Action::Read(Register::StatusIrq5),
            Action::Write(Register::StatusIrq1, CLEAR_ALL),
            Action::Write(Register::StatusIrq2, CLEAR_ALL),
            Action::Write(Register::StatusIrq3, CLEAR_ALL),
            Action::Write(Register::StatusIrq4, CLEAR_ALL),
            Action::Write(Register::StatusIrq5, CLEAR_ALL),
        ]);
    }
}

/// The group whose events `reg` switches on and off, if it is an enable
/// register.
pub open spec fn enabled_group(reg: Register) -> Option<IrqGroup> {
    match reg {
        Register::EnabledIrq1 => Some(IrqGroup::Int1),
        Register::EnabledIrq2 => Some(IrqGroup::Int2),
        Register::EnabledIrq3 => Some(IrqGroup::Int3),
        Register::EnabledIrq4 => Some(IrqGroup::Int4),
        Register::EnabledIrq5 => Some(IrqGroup::Int5),
        _ => None,
    }
}

/// What `reg` holds once the events `irqs` have been switched in the groups
/// from `group` on: the enable register of such a group that holds a
/// requested event has those events added or taken away; every other
/// register, the enable registers of the other groups among them, holds what
/// it held.
pub open spec fn switched_from(
    chip: Chip,
    irqs: EventsIrq,
    enable: bool,
    group: IrqGroup,
    reg: Register,
) -> u8 {
    match enabled_group(reg) {
        Some(g) => if g.base() >= group.base() && irqs.is_group(g) {
            toggled_byte(irqs, enable, g, chip.read(reg))
        } else {
            chip.read(reg)
        },
        None => chip.read(reg),
    }
}

/// The transactions that switch the events `irqs` in the groups from `group`
/// on: for each such group that holds a requested event, in order, one read
/// of its enable register and one write of the changed byte; for the other
/// groups, nothing.
pub open spec fn toggle_trace(chip: Chip, irqs: EventsIrq, enable: bool, group: IrqGroup) -> Seq<
    Action,
>
    decreases 40 - group.base(),
{
    let reg = Register::enabled_irq(group);
    let head = if irqs.is_group(group) {
        seq![
            Action::Read(reg),
            Action::Write(reg, toggled_byte(irqs, enable, group, chip.read(reg))),
        ]
    } else {
        Seq::empty()
    };
    match group.next() {
        Some(n) => head + toggle_trace(chip, irqs, enable, n),
        None => head,
    }
}

/// The transactions of a switch depend on the enable registers that are yet
/// to be read, and on nothing else in the chip.
proof fn lemma_toggle_trace_frame(
    a: Chip,
    b: Chip,
    irqs: EventsIrq,
    enable: bool,
    group: IrqGroup,
)
    requires
        forall|g: IrqGroup|
            g.base() >= group.base() ==> a.read(#[trigger] Register::enabled_irq(g)) == b.read(
                Register::enabled_irq(g),
            ),
    ensures
        toggle_trace(a, irqs, enable, group) == toggle_trace(b, irqs, enable, group),
    decreases 40 - group.base(),
{
    assert(a.read(Register::enabled_irq(group)) == b.read(Register::enabled_irq(group)));
    match group.next() {
        Some(n) => {
            lemma_toggle_trace_frame(a, b, irqs, enable, n);
        },
        None => {},
    }
}

/// Switching events in the groups from `group` on takes at most two
/// transactions for each group left.
proof fn lemma_toggle_from(
    driver: DriverState,
    irqs: EventsIrq,
    enable: bool,
    group: IrqGroup,
    chip: Chip,
    steps: nat,
)
    requires
        steps >= 2 * groups_left(group),
    ensures
        ({
            let end = run_from(driver.toggle_from(irqs, enable, group), chip, steps);
            &&& end.outcome == Some(Outcome::Done)
            &&& end.driver == driver.abandon()
            &&& end.trace == toggle_trace(chip, irqs, enable, group)
            &&& forall|reg: Register| #[trigger]
                end.chip.read(reg) == switched_from(chip, irqs, enable, group, reg)
        }),
    decreases 40 - group.base(),
{
    let start = driver.toggle_from(irqs, enable, group);
    let end = run_from(start, chip, steps);
    if irqs.is_group(group) {
        let reg = Register::enabled_irq(group);
        let byte = toggled_byte(irqs, enable, group, chip.read(reg));
        let (c1, r1) = chip.perform(start.1);
        let (d1, a1) = start.0.step(r1);
        let (c2, r2) = c1.perform(a1);
        let (d2, a2) = d1.step(r2);
        let rest1 = run(d1, a1, c1, (steps - 1) as nat);
        let rest2 = run(d2, a2, c2, (steps - 2) as nat);
        assert(start.1 == Action::Read(reg));
        assert(a1 == Action::Write(reg, byte));
        assert(c2 == chip.write(reg, byte));
        assert(rest1.trace == seq![a1] + rest2.trace);
        assert(end.trace == seq![start.1] + rest1.trace);
        match group.next() {
            Some(n) => {
                lemma_toggle_from(d1, irqs, enable, n, c2, (steps - 2) as nat);
                assert((d2, a2) == d1.toggle_from(irqs, enable, n));
                assert forall|g: IrqGroup| g.base() >= n.base() implies c2.read(
                    #[trigger] Register::enabled_irq(g),
                ) == chip.read(Register::enabled_irq(g)) by {}
                lemma_toggle_trace_frame(c2, chip, irqs, enable, n);
                assert(end.trace =~= toggle_trace(chip, irqs, enable, group));
                assert forall|r: Register| #[trigger]
                    end.chip.read(r) == switched_from(chip, irqs, enable, group, r) by {
                    assert(end.chip.read(r) == switched_from(c2, irqs, enable, n, r));
                }
            },
            None => {
                assert(rest2.trace =~= Seq::<Action>::empty());
                assert(end.trace =~= toggle_trace(chip, irqs, enable, group));
                assert(end.chip == c2);
            },
        }
    } else {
        match group.next() {
            Some(n) => {
                lemma_toggle_from(driver, irqs, enable, n, chip, steps);
                assert(start == driver.toggle_from(irqs, enable, n));
                assert(end.trace =~= toggle_trace(chip, irqs, enable, group));
            },
            None => {
                assert(end.trace =~= toggle_trace(chip, irqs, enable, group));
            },
        }
    }
}

/// Switching events on or off goes through the groups in order. Each group
/// that holds a requested event has its enable register read once and
/// written once, with the requested events added to, or taken from, what was
/// read; a group without a requested event is neither read nor written.
pub proof fn lemma_toggle_irq_run(
    driver: DriverState,
    irqs: EventsIrq,
    enable: bool,
    chip: Chip,
    steps: nat,
)
    requires
        steps >= 10,
    ensures
        ({
            let end = run_from(driver.begin_toggle_irq(irqs, enable), chip, steps);
            &&& end.outcome == Some(Outcome::Done)
            &&& end.driver == driver.abandon()
            &&& end.trace == toggle_trace(chip, irqs, enable, IrqGroup::Int1)
            &&& forall|reg: Register| #[trigger]
                end.chip.read(reg) == switched_from(chip, irqs, enable, IrqGroup::Int1, reg)
        }),
{
    lemma_toggle_from(driver, irqs, enable, IrqGroup::Int1, chip, steps);
}

/// Switching rails, where the rail control register does not read zero, is
/// one read, one write of the changed byte, a pause, and one more read. The
/// byte read back is reported as it is.
pub proof fn lemma_set_power_output_run(
    driver: DriverState,
    channel: Power,
    state: State,
    chip: Chip,
    steps: nat,
)
    requires
        chip.read(Register::Ldo234Dc23Ctl) != 0,
        steps >= 4,
    ensures
        ({
            let byte = rail_byte(
                driver.chip_id,
                channel,
                state is On,
                chip.read(Register::Ldo234Dc23Ctl),
            );
            run_from(driver.begin_set_power_output(channel, state), chip, steps) == (Run {
                driver: driver.abandon(),
                chip: chip.write(Register::Ldo234Dc23Ctl, byte),
                trace: seq![
                    Action::Read(Register::Ldo234Dc23Ctl),
                    Action::Write(Register::Ldo234Dc23Ctl, byte),
                    Action::Delay(RAIL_DELAY_MS),
                    Action::Read(Register::Ldo234Dc23Ctl),
                ],
                outcome: Some(Outcome::Level(byte)),
            })
        }),
{
    let reg = Register::Ldo234Dc23Ctl;
    let byte = rail_byte(driver.chip_id, channel, state is On, chip.read(reg));
    let start = driver.begin_set_power_output(channel, state);
    let end = run_from(start, chip, steps);
    let (c1, r1) = chip.perform(start.1);
    let (d1, a1) = start.0.step(r1);
    let (c2, r2) = c1.perform(a1);
    let (d2, a2) = d1.step(r2);
    let (c3, r3) = c2.perform(a2);
    let (d3, a3) = d2.step(r3);
    let (c4, r4) = c3.perform(a3);
    let (d4, a4) = d3.step(r4);
    let rest1 = run(d1, a1, c1, (steps - 1) as nat);
    let rest2 = run(d2, a2, c2, (steps - 2) as nat);
    let rest3 = run(d3, a3, c3, (steps - 3) as nat);
    let rest4 = run(d4, a4, c4, (steps - 4) as nat);
    assert(a1 == Action::Write(reg, byte));
    assert(a2 == Action::Delay(RAIL_DELAY_MS));
    assert(a3 == Action::Read(reg));
    assert(a4 == Action::Finished(Outcome::Level(byte)));
    assert(rest4.trace =~= Seq::<Action>::empty());
    assert(rest3.trace == seq![a3] + rest4.trace);
    assert(rest2.trace == seq![a2] + rest3.trace);
    assert(rest1.trace == seq![a1] + rest2.trace);
    assert(end.trace == seq![start.1] + rest1.trace);
    let expected = Run {
        driver: driver.abandon(),
        chip: chip.write(reg, byte),
        trace: seq![
            Action::Read(reg),
            Action::Write(reg, byte),
            Action::Delay(RAIL_DELAY_MS),
            Action::Read(reg),
        ],
        outcome: Some(Outcome::Level(byte)),
    };
    assert(end.trace =~= expected.trace);
    assert(end =~= expected);
}

/// While the rail control register reads zero, the handle reads and pauses
/// in turn and does nothing else.
proof fn lemma_rail_waits(
    driver: DriverState,
    channel: Power,
    enable: bool,
    chip: Chip,
    steps: nat,
)
    requires
        chip.read(Register::Ldo234Dc23Ctl) == 0,
        driver.pending == (Pending::RailPoll { channel, enable }) || driver.pending == (
            Pending::RailBackoff { channel, enable }
        ),
    ensures
        ({
            let end = run(driver, request(driver.pending), chip, steps);
            &&& end.outcome is None
            &&& end.chip == chip
            &&& end.trace.len() == steps
            &&& forall|i: int|
                0 <= i < end.trace.len() ==> #[trigger] end.trace[i] == Action::Read(
                    Register::Ldo234Dc23Ctl,
                ) || end.trace[i] == Action::Delay(RAIL_DELAY_MS)
        }),
    decreases steps,
{
    if steps > 0 {
        let action = request(driver.pending);
        let (chip_after, reply) = chip.perform(action);
        let (driver_after, next) = driver.step(reply);
        lemma_rail_waits(driver_after, channel, enable, chip_after, (steps - 1) as nat);
    }
}

/// Switching rails does not go on while the rail control register reads
/// zero: however many transactions are performed, the operation has not
/// finished, nothing has been written, and all that was asked for is a read
/// of the register or a pause.
pub proof fn lemma_set_power_output_waits(
    driver: DriverState,
    channel: Power,
    state: State,
    chip: Chip,
    steps: nat,
)
    requires
        chip.read(Register::Ldo234Dc23Ctl) == 0,
    ensures
        ({
            let end = run_from(driver.begin_set_power_output(channel, state), chip, steps);
            &&& end.outcome is None
            &&& end.chip == chip
            &&& end.trace.len() == steps
            &&& forall|i: int|
                0 <= i < end.trace.len() ==> #[trigger] end.trace[i] == Action::Read(
                    Register::Ldo234Dc23Ctl,
                ) || end.trace[i] == Action::Delay(RAIL_DELAY_MS)
        }),
{
    let start = driver.begin_set_power_output(channel, state);
    lemma_rail_waits(start.0, channel, state is On, chip, steps);
}

} // verus!
