//! The device handle and the conversation it holds with the bus.
//!
//! The handle owns no bus. An operation is started by one of the handle's
//! methods, which answers with the first transaction the operation needs. The
//! owner of the bus performs it and hands the result to [`Axpxx::resume`],
//! which answers with the next one, until the operation has finished.

use crate::bits::{bits_of, lemma_bits_byte, lemma_bits_zero, lowered, span};
use crate::chip::{chip_of, ChipId};
use crate::events::{byte_events, EventsIrq, IrqGroup};
use crate::latch::InterruptLatch;
use crate::power::{Power, State, DCDC3};
use crate::register::Register;
use vstd::prelude::*;

verus! {

/// Seven-bit bus address of the chip.
pub const AXP202_SLAVE_ADDR: u8 = 0x35;

/// Number of the input pin wired to the chip's interrupt line.
pub const GPIO_INTR: u8 = 35;

/// Milliseconds to wait before the rail control register is read again.
pub const RAIL_DELAY_MS: u32 = 10;

/// The byte that acknowledges every latched event of a status register.
pub const CLEAR_ALL: u8 = 0xFF;

/// Which edge of the interrupt line raises the interrupt.
#[derive(Clone, Copy, Debug, PartialEq, Eq, Structural)]
pub enum Edge {
    Rising,
    Falling,
}

/// How the input pin of the interrupt line is to be set up.
#[derive(Clone, Copy, Debug, PartialEq, Eq, Structural)]
pub struct IrqLine {
    pub pin: u8,
    pub edge: Edge,
    pub pull_up: bool,
    pub pull_down: bool,
}

/// What an operation hands to its caller when it has finished.
#[derive(Clone, Copy, Debug, PartialEq, Eq, Structural)]
pub enum Outcome {
    /// The operation is complete and has nothing to report.
    Done,
    /// Whether the power key was pressed.
    Pressed(bool),
    /// The events that were latched.
    Events(EventsIrq),
    /// The byte last read from the rail control register.
    Level(u8),
}

/// What the handle asks of the owner of the bus.
#[derive(Clone, Copy, Debug, PartialEq, Eq, Structural)]
pub enum Action {
    /// No operation is under way.
    Idle,
    /// Send the register's address, then read one byte.
    Read(Register),
    /// Send the register's address and the byte in one write.
    Write(Register, u8),
    /// Wait for this many milliseconds.
    Delay(u32),
    /// The operation has finished; nothing more is to be done.
    Finished(Outcome),
}

/// A transaction as it crosses the bus: the chip it goes to and the bytes
/// that are sent, first byte first.
#[derive(Clone, Copy, Debug, PartialEq, Eq)]
pub enum Transfer {
    /// Send `out` to the chip at `addr` and read one byte back, all in one
    /// transaction.
    WriteRead { addr: u8, out: [u8; 1] },
    /// Send `out` to the chip at `addr` in one transaction.
    Write { addr: u8, out: [u8; 2] },
}

/// What the owner of the bus hands back once it has done what was asked.
#[derive(Clone, Copy, Debug, PartialEq, Eq, Structural)]
pub enum Reply {
    /// The byte that a read returned.
    Value(u8),
    /// A write or a delay has completed.
    Done,
}

/// The operation under way and how far it has come.
#[derive(Clone, Copy, Debug, PartialEq, Eq, Structural)]
pub enum Pending {
    /// No operation is under way.
    Idle,
    /// The identification register is being read.
    Probe,
    /// The enable register of `group` is being read.
    ToggleRead { irqs: EventsIrq, enable: bool, group: IrqGroup },
    /// `byte` is being written to the enable register of `group`.
    ToggleWrite { irqs: EventsIrq, enable: bool, group: IrqGroup, byte: u8 },
    /// The status register of `group` is being read; `seen` holds the events
    /// of the groups before it.
    Status { group: IrqGroup, seen: EventsIrq, button: bool },
    /// The status register of `group` is being cleared; `outcome` is reported
    /// once the last one has been.
    Clear { group: IrqGroup, outcome: Outcome },
    /// The rail control register is being read, to be changed once it is not zero.
    RailPoll { channel: Power, enable: bool },
    /// The rail control register read zero; time passes before the next read.
    RailBackoff { channel: Power, enable: bool },
    /// `byte` is being written to the rail control register.
    RailWrite { byte: u8 },
    /// The rail control register was written; time passes before it is read back.
    RailSettle,
    /// The rail control register is being read, to be reported.
    RailCheck,
}

/// What a device handle holds.
pub struct DriverState {
    pub addr: u8,
    pub init: bool,
    pub chip_id: ChipId,
    pub pending: Pending,
}

/// The transaction that an operation waits for.
pub open spec fn request(pending: Pending) -> Action {
    match pending {
        Pending::Idle => Action::Idle,
        Pending::Probe => Action::Read(Register::IcType),
        Pending::ToggleRead { group, .. } => Action::Read(Register::enabled_irq(group)),
        Pending::ToggleWrite { group, byte, .. } => Action::Write(
            Register::enabled_irq(group),
            byte,
        ),
        Pending::Status { group, .. } => Action::Read(Register::status_irq(group)),
        Pending::Clear { group, .. } => Action::Write(Register::status_irq(group), CLEAR_ALL),
        Pending::RailPoll { .. } => Action::Read(Register::Ldo234Dc23Ctl),
        Pending::RailBackoff { .. } => Action::Delay(RAIL_DELAY_MS),
        Pending::RailWrite { byte } => Action::Write(Register::Ldo234Dc23Ctl, byte),
        Pending::RailSettle => Action::Delay(RAIL_DELAY_MS),
        Pending::RailCheck => Action::Read(Register::Ldo234Dc23Ctl),
    }
}

/// Whether `reply` is the kind of answer that `action` calls for: a byte for
/// a read, a completion for a write or a delay.
pub open spec fn answers(action: Action, reply: Reply) -> bool {
    match action {
        Action::Read(_) => reply is Value,
        Action::Write(_, _) => reply is Done,
        Action::Delay(_) => reply is Done,
        _ => false,
    }
}

/// The enable byte of `group` after the events `irqs` have been switched on
/// or off in `current`, the byte read from the register.
pub open spec fn toggled_byte(irqs: EventsIrq, enable: bool, group: IrqGroup, current: u8) -> u8 {
    EventsIrq::from_group_u8(group, current).toggle(irqs, enable).into_group_u8(group)
}

/// The rail control byte after the rails `channel` have been switched on or
/// off in `current`, the byte read from the register. On a chip that needs
/// it, DC-DC3 is on in the result whatever was asked.
pub open spec fn rail_byte(chip_id: ChipId, channel: Power, enable: bool, current: u8) -> u8 {
    let wanted = Power::from_u8(current).toggle(channel, enable);
    if chip_id.forces_dc_dc3() {
        wanted.union(Power::spec_rail(DCDC3)).into_u8()
    } else {
        wanted.into_u8()
    }
}

/// What the enable byte holds after a switch: the events that the register
/// held, with the requested events of the group added or taken away. Events
/// of other groups in the request play no part.
pub proof fn lemma_toggled_byte(irqs: EventsIrq, enable: bool, group: IrqGroup, current: u8)
    ensures
        enable ==> byte_events(toggled_byte(irqs, enable, group, current)) == byte_events(
            current,
        ).union(lowered(irqs@, group.base()).intersect(span(0, 8))),
        !enable ==> byte_events(toggled_byte(irqs, enable, group, current)) == byte_events(
            current,
        ).difference(lowered(irqs@, group.base())),
{
    let k: nat = group.base();
    let held = EventsIrq::from_group_u8(group, current);
    let wanted = held.toggle(irqs, enable);
    let byte: u8 = wanted.into_group_u8(group);
    held.lemma_views(irqs);
    held.lemma_group_views(group, current);
    wanted.lemma_group_views(group, current);
    lemma_bits_byte(current);
    if enable {
        assert(byte_events(byte) =~= byte_events(current).union(
            lowered(irqs@, k).intersect(span(0, 8)),
        )) by {
            assert forall|i: nat|
                byte_events(byte).contains(i) == (byte_events(current).contains(i) || (lowered(
                    irqs@,
                    k,
                ).contains(i) && i < 8)) by {
                assert(((i + k) - k) as nat == i);
                if byte_events(current).contains(i) {
                    assert(span(0, 8).contains(i));
                }
            }
        }
    } else {
        assert(byte_events(byte) =~= byte_events(current).difference(lowered(irqs@, k))) by {
            assert forall|i: nat|
                byte_events(byte).contains(i) == (byte_events(current).contains(i) && !lowered(
                    irqs@,
                    k,
                ).contains(i)) by {
                assert(((i + k) - k) as nat == i);
                if byte_events(current).contains(i) {
                    assert(span(0, 8).contains(i));
                }
            }
        }
    }
}

/// What the rail control byte holds after a switch: the rails that the
/// register held, with the requested rails added or taken away, and with
/// DC-DC3 on a chip that needs it. Such a chip is never written zero, and
/// switching rails on never turns a byte that is not zero into zero.
pub proof fn lemma_rail_byte(chip_id: ChipId, channel: Power, enable: bool, current: u8)
    ensures
        bits_of(rail_byte(chip_id, channel, enable, current) as u64) == (if enable {
            bits_of(current as u64).union(channel@)
        } else {
            bits_of(current as u64).difference(channel@)
        }).union(
            if chip_id == ChipId::Axp202 {
                set![DCDC3 as nat]
            } else {
                Set::<nat>::empty()
            },
        ),
        chip_id == ChipId::Axp202 ==> rail_byte(chip_id, channel, enable, current) != 0,
        enable && current != 0 ==> rail_byte(chip_id, channel, enable, current) != 0,
{
    let held = Power::from_u8(current);
    let wanted = held.toggle(channel, enable);
    let forced = wanted.union(Power::spec_rail(DCDC3));
    let byte: u8 = rail_byte(chip_id, channel, enable, current);
    Power::lemma_byte_view(current);
    Power::lemma_rail_view(DCDC3);
    held.lemma_views(channel);
    wanted.lemma_views(Power::spec_rail(DCDC3));
    forced.lemma_views(forced);
    lemma_bits_zero();
    let after = bits_of(byte as u64);
    assert(after =~= (if enable {
        bits_of(current as u64).union(channel@)
    } else {
        bits_of(current as u64).difference(channel@)
    }).union(
        if chip_id == ChipId::Axp202 {
            set![DCDC3 as nat]
        } else {
            Set::<nat>::empty()
        },
    ));
    if chip_id == ChipId::Axp202 {
        assert(after.contains(DCDC3 as nat));
    }
    if enable && current != 0 {
        held.lemma_views(held);
        assert(held@ != Set::<nat>::empty());
        assert(!(held@ =~= Set::<nat>::empty()));
        let i = choose|i: nat| held@.contains(i);
        assert(after.contains(i));
    }
}

/// What reading the status registers reports, given the events that were seen.
pub open spec fn status_outcome(seen: EventsIrq, button: bool) -> Outcome {
    if button {
        Outcome::Pressed(seen.intersects(EventsIrq::power_key_short_press()))
    } else {
        Outcome::Events(seen)
    }
}

impl DriverState {
    /// The handle with `pending` under way, and the transaction it waits for.
    pub open spec fn go(self, pending: Pending) -> (DriverState, Action) {
        (DriverState { pending, ..self }, request(pending))
    }

    /// The handle at rest, and the report of `outcome`.
    pub open spec fn finish(self, outcome: Outcome) -> (DriverState, Action) {
        (DriverState { pending: Pending::Idle, ..self }, Action::Finished(outcome))
    }

    /// The handle with whatever was under way given up.
    pub open spec fn abandon(self) -> DriverState {
        DriverState { pending: Pending::Idle, ..self }
    }

    /// Start of the identification of the chip.
    pub open spec fn begin_init(self) -> (DriverState, Action) {
        self.go(Pending::Probe)
    }

    /// Switching events on or off, taken up at `group`: the groups without a
    /// requested event are passed over.
    pub open spec fn toggle_from(self, irqs: EventsIrq, enable: bool, group: IrqGroup) -> (
        DriverState,
        Action,
    ) {
        match irqs.first_group_from(group) {
            Some(g) => self.go(Pending::ToggleRead { irqs, enable, group: g }),
            None => self.finish(Outcome::Done),
        }
    }

    /// Start of switching the events `irqs` on or off.
    pub open spec fn begin_toggle_irq(self, irqs: EventsIrq, enable: bool) -> (
        DriverState,
        Action,
    ) {
        self.toggle_from(irqs, enable, IrqGroup::Int1)
    }

    /// Start of clearing every latched event.
    pub open spec fn begin_clear_irq(self) -> (DriverState, Action) {
        self.go(Pending::Clear { group: IrqGroup::Int1, outcome: Outcome::Done })
    }

    /// Start of reading, then clearing, the latched events.
    pub open spec fn begin_read_irq(self, button: bool) -> (DriverState, Action) {
        self.go(Pending::Status { group: IrqGroup::Int1, seen: EventsIrq::none(), button })
    }

    /// Start of the query for the power key: nothing is asked of the bus
    /// unless the interrupt line has fired.
    pub open spec fn begin_poll_button(self, triggered: bool) -> (DriverState, Action) {
        if triggered {
            self.begin_read_irq(true)
        } else {
            self.finish(Outcome::Pressed(false))
        }
    }

    /// Start of reading the rail control register for its own sake.
    pub open spec fn begin_debug_power_output(self) -> (DriverState, Action) {
        self.go(Pending::RailCheck)
    }

    /// Start of switching the rails `channel` on or off.
    pub open spec fn begin_set_power_output(self, channel: Power, state: State) -> (
        DriverState,
        Action,
    ) {
        self.go(Pending::RailPoll { channel, enable: state is On })
    }

    /// The move made when the transaction under way has been answered;
    /// `value` is the byte read, where the transaction was a read.
    pub open spec fn answered(self, value: u8) -> (DriverState, Action) {
        match self.pending {
            Pending::Idle => (self, Action::Idle),
            Pending::Probe => DriverState {
                init: true,
                chip_id: chip_of(value),
                ..self
            }.finish(Outcome::Done),
            Pending::ToggleRead { irqs, enable, group } => self.go(
                Pending::ToggleWrite {
                    irqs,
                    enable,
                    group,
                    byte: toggled_byte(irqs, enable, group, value),
                },
            ),
            Pending::ToggleWrite { irqs, enable, group, .. } => match group.next() {
                Some(n) => self.toggle_from(irqs, enable, n),
                None => self.finish(Outcome::Done),
            },
            Pending::Status { group, seen, button } => {
                let seen = seen.union(EventsIrq::from_group_u8(group, value));
                match group.next() {
                    Some(n) => self.go(Pending::Status { group: n, seen, button }),
                    None => self.go(
                        Pending::Clear {
                            group: IrqGroup::Int1,
                            outcome: status_outcome(seen, button),
                        },
                    ),
                }
            },
            Pending::Clear { group, outcome } => match group.next() {
                Some(n) => self.go(Pending::Clear { group: n, outcome }),
                None => self.finish(outcome),
            },
            Pending::RailPoll { channel, enable } => if value == 0 {
                self.go(Pending::RailBackoff { channel, enable })
            } else {
                self.go(
                    Pending::RailWrite { byte: rail_byte(self.chip_id, channel, enable, value) },
                )
            },
            Pending::RailBackoff { channel, enable } => self.go(
                Pending::RailPoll { channel, enable },
            ),
            Pending::RailWrite { .. } => self.go(Pending::RailSettle),
            Pending::RailSettle => self.go(Pending::RailCheck),
            Pending::RailCheck => self.finish(Outcome::Level(value)),
        }
    }

    /// The move made on `reply`. A reply that does not answer the transaction
    /// under way changes nothing, and the transaction is asked for again.
    pub open spec fn step(self, reply: Reply) -> (DriverState, Action) {
        if answers(request(self.pending), reply) {
            match reply {
                Reply::Value(value) => self.answered(value),
                Reply::Done => self.answered(0),
            }
        } else {
            (self, request(self.pending))
        }
    }
}

/// What is known of the chip changes only when the chip is identified: no
/// other move touches the variant, the mark that it was found, or the bus
/// address.
pub proof fn lemma_step_keeps_chip(state: DriverState, reply: Reply)
    ensures
        state.step(reply).0.addr == state.addr,
        !(state.pending is Probe) ==> state.step(reply).0.chip_id == state.chip_id,
        !(state.pending is Probe) ==> state.step(reply).0.init == state.init,
        state.pending is Probe && reply is Value ==> state.step(reply).0.init,
{
}

/// A move ends in the transaction that the new state waits for, unless the
/// operation has just finished: then the handle is at rest.
pub proof fn lemma_step_asks(state: DriverState, reply: Reply)
    ensures
        match state.step(reply).1 {
            Action::Finished(_) => state.step(reply).0.pending is Idle && !(state.pending is Idle),
            action => action == request(state.step(reply).0.pending),
        },
{
}

/// The handle of one chip: its bus address, what is known of the chip, and
/// the operation under way.
pub struct Axpxx {
    addr: u8,
    init: bool,
    chip_id: ChipId,
    pending: Pending,
}

impl View for Axpxx {
    type V = DriverState;

    closed spec fn view(&self) -> DriverState {
        DriverState {
            addr: self.addr,
            init: self.init,
            chip_id: self.chip_id,
            pending: self.pending,
        }
    }
}

impl Axpxx {
    /// A handle for a chip that has not been identified yet.
    pub fn new() -> (axp: Axpxx)
        ensures
            axp@ == (DriverState {
                addr: AXP202_SLAVE_ADDR,
                init: false,
                chip_id: ChipId::Unknown,
                pending: Pending::Idle,
            }),
    {
        Axpxx {
            addr: AXP202_SLAVE_ADDR,
            init: false,
            chip_id: ChipId::Unknown,
            pending: Pending::Idle,
        }
    }

    /// The bus address that every transaction of this handle goes to.
    pub fn addr(&self) -> (addr: u8)
        ensures
            addr == self@.addr,
    {
        self.addr
    }

    /// Whether the chip has been identified.
    pub fn is_init(&self) -> (init: bool)
        ensures
            init == self@.init,
    {
        self.init
    }

    /// The chip variant found when the chip was identified.
    pub fn chip_id(&self) -> (chip_id: ChipId)
        ensures
            chip_id == self@.chip_id,
    {
        self.chip_id
    }

    /// The operation under way.
    pub fn pending(&self) -> (pending: Pending)
        ensures
            pending == self@.pending,
    {
        self.pending
    }

    /// The transaction that the handle waits for.
    pub fn request(&self) -> (action: Action)
        ensures
            action == request(self@.pending),
    {
        match self.pending {
            Pending::Idle => Action::Idle,
            Pending::Probe => Action::Read(Register::IcType),
            Pending::ToggleRead { irqs: _, enable: _, group } => Action::Read(
                Register::enabled_irq(group),
            ),
            Pending::ToggleWrite { irqs: _, enable: _, group, byte } => Action::Write(
                Register::enabled_irq(group),
                byte,
            ),
            Pending::Status { group, seen: _, button: _ } => Action::Read(
                Register::status_irq(group),
            ),
            Pending::Clear { group, outcome: _ } => Action::Write(
                Register::status_irq(group),
                CLEAR_ALL,
            ),
            Pending::RailPoll { channel: _, enable: _ } => Action::Read(Register::Ldo234Dc23Ctl),
            Pending::RailBackoff { channel: _, enable: _ } => Action::Delay(RAIL_DELAY_MS),
            Pending::RailWrite { byte } => Action::Write(Register::Ldo234Dc23Ctl, byte),
            Pending::RailSettle => Action::Delay(RAIL_DELAY_MS),
            Pending::RailCheck => Action::Read(Register::Ldo234Dc23Ctl),
        }
    }

    /// What `action` puts on the bus, if anything. A register is read by
    /// sending its address and reading one byte back; it is written by sending
    /// its address and then the byte. A pause and the end of an operation put
    /// nothing on the bus.
    pub fn transfer(&self, action: Action) -> (transfer: Option<Transfer>)
        ensures
            match action {
                Action::Read(reg) => {
                    &&& transfer matches Some(Transfer::WriteRead { addr, out })
                    &&& addr == self@.addr
                    &&& out@ == seq![reg.addr()]
                },
                Action::Write(reg, value) => {
                    &&& transfer matches Some(Transfer::Write { addr, out })
                    &&& addr == self@.addr
                    &&& out@ == seq![reg.addr(), value]
                },
                _ => transfer is None,
            },
    {
        match action {
            Action::Read(reg) => {
                let out: [u8; 1] = [reg.addr()];
                assert(out@ =~= seq![reg.addr()]);
                Some(Transfer::WriteRead { addr: self.addr, out })
            },
            Action::Write(reg, value) => {
                let out: [u8; 2] = [reg.addr(), value];
                assert(out@ =~= seq![reg.addr(), value]);
                Some(Transfer::Write { addr: self.addr, out })
            },
            _ => None,
        }
    }

    /// Puts `pending` under way and asks for its transaction.
    fn go(&mut self, pending: Pending) -> (action: Action)
        ensures
            (final(self)@, action) == old(self)@.go(pending),
    {
        self.pending = pending;
        self.request()
    }

    /// Puts the handle at rest and reports `outcome`.
    fn finish(&mut self, outcome: Outcome) -> (action: Action)
        ensures
            (final(self)@, action) == old(self)@.finish(outcome),
    {
        self.pending = Pending::Idle;
        Action::Finished(outcome)
    }

    /// Takes switching events up at `group`.
    fn toggle_from(&mut self, irqs: EventsIrq, enable: bool, group: IrqGroup) -> (action: Action)
        ensures
            (final(self)@, action) == old(self)@.toggle_from(irqs, enable, group),
    {
        match irqs.first_group_from(group) {
            Some(g) => self.go(Pending::ToggleRead { irqs, enable, group: g }),
            None => self.finish(Outcome::Done),
        }
    }

    /// Starts the identification of the chip: the identification register is
    /// read once, and the variant it names is kept in the handle. Whatever
    /// was under way is given up.
    pub fn init(&mut self) -> (action: Action)
        ensures
            (final(self)@, action) == old(self)@.begin_init(),
            action == Action::Read(Register::IcType),
    {
        self.go(Pending::Probe)
    }

    /// How the interrupt line of the chip is to be set up: one fixed input
    /// pin, raised on the falling edge, with neither pull resistor.
    pub fn init_irq(&self) -> (line: IrqLine)
        ensures
            line == (IrqLine { pin: GPIO_INTR, edge: Edge::Falling, pull_up: false, pull_down: false }),
    {
        IrqLine { pin: GPIO_INTR, edge: Edge::Falling, pull_up: false, pull_down: false }
    }

    /// Starts switching the events `irqs` on, or off. Each group that holds
    /// one of them has its enable register read and written once, in order;
    /// the other groups are left alone. Whatever was under way is given up.
    pub fn toggle_irq(&mut self, irqs: EventsIrq, enable: bool) -> (action: Action)
        ensures
            (final(self)@, action) == old(self)@.begin_toggle_irq(irqs, enable),
    {
        self.toggle_from(irqs, enable, IrqGroup::Int1)
    }

    /// Starts clearing every latched event: all five status registers are
    /// written with ones. Whatever was under way is given up.
    pub fn clear_irq(&mut self) -> (action: Action)
        ensures
            (final(self)@, action) == old(self)@.begin_clear_irq(),
            action == Action::Write(Register::StatusIrq1, CLEAR_ALL),
    {
        self.go(Pending::Clear { group: IrqGroup::Int1, outcome: Outcome::Done })
    }

    /// Starts reading the latched events: all five status registers are
    /// read, then all five are cleared, and the events that were read are
    /// reported. Whatever was under way is given up.
    pub fn read_irq(&mut self) -> (action: Action)
        ensures
            (final(self)@, action) == old(self)@.begin_read_irq(false),
            action == Action::Read(Register::StatusIrq1),
    {
        self.go(Pending::Status { group: IrqGroup::Int1, seen: EventsIrq::none(), button: false })
    }

    /// Starts the query for the power key, given whether the interrupt line
    /// has fired. Where it has not, the answer is no and the bus is left
    /// alone. Where it has, the latched events are read and cleared, and the
    /// answer is whether a short press of the power key is among them.
    pub fn poll_button(&mut self, triggered: bool) -> (action: Action)
        ensures
            (final(self)@, action) == old(self)@.begin_poll_button(triggered),
            !triggered ==> action == Action::Finished(Outcome::Pressed(false)),
            triggered ==> action == Action::Read(Register::StatusIrq1),
    {
        if triggered {
            self.go(
                Pending::Status { group: IrqGroup::Int1, seen: EventsIrq::none(), button: true },
            )
        } else {
            self.finish(Outcome::Pressed(false))
        }
    }

    /// Consumes `latch` and starts the query for the power key with what it
    /// held.
    pub fn is_button_pressed(&mut self, latch: &InterruptLatch) -> (action: Action)
        ensures
            (final(self)@, action) == old(self)@.begin_poll_button(true) || (final(self)@, action)
                == old(self)@.begin_poll_button(false),
    {
        let triggered = latch.consume();
        self.poll_button(triggered)
    }

    /// Starts reading the rail control register, to report the byte it holds.
    /// Whatever was under way is given up.
    pub fn debug_power_output(&mut self) -> (action: Action)
        ensures
            (final(self)@, action) == old(self)@.begin_debug_power_output(),
            action == Action::Read(Register::Ldo234Dc23Ctl),
    {
        self.go(Pending::RailCheck)
    }

    /// Starts switching the rails `channel` on, or off. The rail control
    /// register is read until it is not zero, with a pause after each zero;
    /// the changed byte is then written, and after a pause read back and
    /// reported. Whatever was under way is given up.
    pub fn set_power_output(&mut self, channel: Power, state: State) -> (action: Action)
        ensures
            (final(self)@, action) == old(self)@.begin_set_power_output(channel, state),
            action == Action::Read(Register::Ldo234Dc23Ctl),
    {
        let enable = match state {
            State::On => true,
            State::Off => false,
        };
        self.go(Pending::RailPoll { channel, enable })
    }

    /// The enable byte of `group` after `irqs` have been switched in `current`.
    fn toggled_byte(irqs: EventsIrq, enable: bool, group: IrqGroup, current: u8) -> (byte: u8)
        ensures
            byte == toggled_byte(irqs, enable, group, current),
    {
        EventsIrq::from_group_u8(group, current).toggle(irqs, enable).into_group_u8(group)
    }

    /// The rail control byte after `channel` has been switched in `current`.
    fn rail_byte(chip_id: ChipId, channel: Power, enable: bool, current: u8) -> (byte: u8)
        ensures
            byte == rail_byte(chip_id, channel, enable, current),
    {
        let wanted = Power::from_u8(current).toggle(channel, enable);
        if chip_id.forces_dc_dc3() {
            wanted.union(Power::dc_dc3()).into_u8()
        } else {
            wanted.into_u8()
        }
    }

    /// What reading the status registers reports.
    fn status_outcome(seen: EventsIrq, button: bool) -> (outcome: Outcome)
        ensures
            outcome == status_outcome(seen, button),
    {
        if button {
            Outcome::Pressed(seen.intersects(EventsIrq::power_key_short_press()))
        } else {
            Outcome::Events(seen)
        }
    }

    /// Makes the move that follows an answer to the transaction under way.
    fn answered(&mut self, value: u8) -> (action: Action)
        ensures
            (final(self)@, action) == old(self)@.answered(value),
    {
        match self.pending {
            Pending::Idle => Action::Idle,
            Pending::Probe => {
                self.chip_id = ChipId::from(value);
                self.init = true;
                self.finish(Outcome::Done)
            },
            Pending::ToggleRead { irqs, enable, group } => {
                let byte = Self::toggled_byte(irqs, enable, group, value);
                self.go(Pending::ToggleWrite { irqs, enable, group, byte })
            },
            Pending::ToggleWrite { irqs, enable, group, byte: _ } => match group.next() {
                Some(n) => self.toggle_from(irqs, enable, n),
                None => self.finish(Outcome::Done),
            },
            Pending::Status { group, seen, button } => {
                let seen = seen.union(EventsIrq::from_group_u8(group, value));
                match group.next() {
                    Some(n) => self.go(Pending::Status { group: n, seen, button }),
                    None => {
                        let outcome = Self::status_outcome(seen, button);
                        self.go(Pending::Clear { group: IrqGroup::Int1, outcome })
                    },
                }
            },
            Pending::Clear { group, outcome } => match group.next() {
                Some(n) => self.go(Pending::Clear { group: n, outcome }),
                None => self.finish(outcome),
            },
            Pending::RailPoll { channel, enable } => {
                if value == 0 {
                    self.go(Pending::RailBackoff { channel, enable })
                } else {
                    let byte = Self::rail_byte(self.chip_id, channel, enable, value);
                    self.go(Pending::RailWrite { byte })
                }
            },
            Pending::RailBackoff { channel, enable } => self.go(
                Pending::RailPoll { channel, enable },
            ),
            Pending::RailWrite { byte: _ } => self.go(Pending::RailSettle),
            Pending::RailSettle => self.go(Pending::RailCheck),
            Pending::RailCheck => self.finish(Outcome::Level(value)),
        }
    }

    /// Takes the result of the transaction that was asked for last and
    /// answers with the next one.
    ///
    /// A bus error ends the operation under way: the error is handed back as
    /// it came, nothing is tried again, and what the operation had written
    /// before stays written. A reply that does not answer the transaction
    /// under way changes nothing, and the transaction is asked for again.
    pub fn resume<E>(&mut self, reply: Result<Reply, E>) -> (r: Result<Action, E>)
        ensures
            match reply {
                Ok(reply) => (final(self)@, r) == (
                    old(self)@.step(reply).0,
                    Ok::<Action, E>(old(self)@.step(reply).1),
                ),
                Err(e) => (final(self)@, r) == (old(self)@.abandon(), Err::<Action, E>(e)),
            },
    {
        match reply {
            Err(e) => {
                self.pending = Pending::Idle;
                Err(e)
            },
            Ok(Reply::Value(value)) => match self.request() {
                Action::Read(_) => Ok(self.answered(value)),
                other => Ok(other),
            },
            Ok(Reply::Done) => match self.request() {
                Action::Write(_, _) => Ok(self.answered(0)),
                Action::Delay(_) => Ok(self.answered(0)),
                other => Ok(other),
            },
        }
    }
}

} // verus!
