//! The forty interrupt events of the chip, as a set, and the five bytes that
//! carry them on the bus.

use crate::bits::{
    bits_of, lemma_bits_and, lemma_bits_and_not, lemma_bits_byte, lemma_bits_byte_at,
    lemma_bits_byte_injective, lemma_bits_forty, lemma_bits_injective, lemma_bits_or,
    lemma_bits_shl, lemma_bits_zero, lowered, raised, span, bit_at,
};
use vstd::prelude::*;

verus! {

/// Number of events the chip can report.
pub const EVENT_COUNT: u32 = 40;

/// One of the five byte-wide partitions of the event space. Each has an enable
/// register and a status register of its own.
#[derive(Clone, Copy, Debug, PartialEq, Eq, Structural)]
pub enum IrqGroup {
    Int1,
    Int2,
    Int3,
    Int4,
    Int5,
}

impl IrqGroup {
    /// Position of the group's lowest event.
    pub open spec fn base(self) -> nat {
        match self {
            IrqGroup::Int1 => 0,
            IrqGroup::Int2 => 8,
            IrqGroup::Int3 => 16,
            IrqGroup::Int4 => 24,
            IrqGroup::Int5 => 32,
        }
    }

    /// The eight events of the group.
    pub open spec fn events(self) -> Set<nat> {
        span(self.base(), self.base() + 8)
    }

    /// The group that follows this one, if any.
    pub open spec fn spec_next(self) -> Option<IrqGroup> {
        match self {
            IrqGroup::Int1 => Some(IrqGroup::Int2),
            IrqGroup::Int2 => Some(IrqGroup::Int3),
            IrqGroup::Int3 => Some(IrqGroup::Int4),
            IrqGroup::Int4 => Some(IrqGroup::Int5),
            IrqGroup::Int5 => None,
        }
    }

    /// How far a byte of this group is shifted inside the event word.
    pub fn shift(self) -> (s: u64)
        ensures
            s == self.base(),
    {
        match self {
            IrqGroup::Int1 => 0,
            IrqGroup::Int2 => 8,
            IrqGroup::Int3 => 16,
            IrqGroup::Int4 => 24,
            IrqGroup::Int5 => 32,
        }
    }

    /// The group that follows this one, if any.
    #[verifier::when_used_as_spec(spec_next)]
    pub fn next(self) -> (n: Option<IrqGroup>)
        ensures
            n == self.spec_next(),
    {
        match self {
            IrqGroup::Int1 => Some(IrqGroup::Int2),
            IrqGroup::Int2 => Some(IrqGroup::Int3),
            IrqGroup::Int3 => Some(IrqGroup::Int4),
            IrqGroup::Int4 => Some(IrqGroup::Int5),
            IrqGroup::Int5 => None,
        }
    }
}

/// The events a byte stands for when read as the lowest group: bit `k` of the
/// byte is event `k`.
pub open spec fn byte_events(byte: u8) -> Set<nat> {
    bits_of(byte as u64)
}

/// A set of interrupt events.
#[derive(Clone, Copy, Debug, PartialEq, Eq, Structural)]
pub struct EventsIrq {
    bits: u64,
}

impl View for EventsIrq {
    type V = Set<nat>;

    /// The events in the set, by position.
    closed spec fn view(&self) -> Set<nat> {
        bits_of(self.bits)
    }
}

/// Position of the event raised by a short press of the power key.
pub const POWER_KEY_SHORT_PRESS: u32 = 17;

impl EventsIrq {
    /// A value is well formed when it holds nothing outside the forty events.
    #[verifier::type_invariant]
    pub closed spec fn wf(self) -> bool {
        self.bits <= 0xFF_FFFF_FFFF
    }

    /// Well-formedness, said of the view.
    pub proof fn lemma_wf(self)
        ensures
            self.wf() <==> self@.subset_of(span(0, EVENT_COUNT as nat)),
    {
        lemma_bits_forty(self.bits);
    }

    /// Two sets of events with the same view are the same value.
    pub proof fn lemma_view_injective(self, other: EventsIrq)
        requires
            self@ == other@,
        ensures
            self == other,
    {
        lemma_bits_injective(self.bits, other.bits);
    }

    /// `none`, as it reads in contracts.
    pub closed spec fn spec_none() -> EventsIrq {
        EventsIrq { bits: 0 }
    }

    /// `all`, as it reads in contracts.
    pub closed spec fn spec_all() -> EventsIrq {
        EventsIrq { bits: 0xFF_FFFF_FFFF }
    }

    /// `power_key_short_press`, as it reads in contracts.
    pub closed spec fn spec_power_key_short_press() -> EventsIrq {
        EventsIrq { bits: 0x2_0000 }
    }

    /// `group`, as it reads in contracts.
    pub closed spec fn spec_group(group: IrqGroup) -> EventsIrq {
        EventsIrq { bits: 0xFFu64 << (group.base() as u64) }
    }

    /// `union`, as it reads in contracts.
    pub closed spec fn spec_union(self, other: EventsIrq) -> EventsIrq {
        EventsIrq { bits: self.bits | other.bits }
    }

    /// `intersect`, as it reads in contracts.
    pub closed spec fn spec_intersect(self, other: EventsIrq) -> EventsIrq {
        EventsIrq { bits: self.bits & other.bits }
    }

    /// `difference`, as it reads in contracts.
    pub closed spec fn spec_difference(self, other: EventsIrq) -> EventsIrq {
        EventsIrq { bits: self.bits & !other.bits }
    }

    /// `complement`, as it reads in contracts.
    pub closed spec fn spec_complement(self) -> EventsIrq {
        EventsIrq { bits: 0xFF_FFFF_FFFF & !self.bits }
    }

    /// `from_group_u8`, as it reads in contracts.
    pub closed spec fn spec_from_group_u8(group: IrqGroup, val: u8) -> EventsIrq {
        EventsIrq { bits: (val as u64) << (group.base() as u64) }
    }

    /// `into_group_u8`, as it reads in contracts.
    pub closed spec fn spec_into_group_u8(self, group: IrqGroup) -> u8 {
        ((self.bits >> (group.base() as u64)) & 0xFF) as u8
    }

    /// `toggle`, as it reads in contracts.
    pub open spec fn spec_toggle(self, delta: EventsIrq, enable: bool) -> EventsIrq {
        if enable {
            self.spec_union(delta)
        } else {
            self.spec_difference(delta)
        }
    }

    /// `is_none`, as it reads in contracts.
    pub open spec fn spec_is_none(self) -> bool {
        self@ == Set::<nat>::empty()
    }

    /// `intersects`, as it reads in contracts.
    pub open spec fn spec_intersects(self, other: EventsIrq) -> bool {
        !self@.disjoint(other@)
    }

    /// `contains`, as it reads in contracts.
    pub open spec fn spec_contains(self, other: EventsIrq) -> bool {
        other@.subset_of(self@)
    }

    /// `is_group`, as it reads in contracts.
    pub open spec fn spec_is_group(self, group: IrqGroup) -> bool {
        !self@.disjoint(group.events())
    }

    /// What the set-valued operations mean, said of the views.
    pub proof fn lemma_views(self, other: EventsIrq)
        ensures
            Self::spec_none()@ == Set::<nat>::empty(),
            Self::spec_all()@ == span(0, EVENT_COUNT as nat),
            Self::spec_power_key_short_press()@ == set![POWER_KEY_SHORT_PRESS as nat],
            self.spec_union(other)@ == self@.union(other@),
            self.spec_intersect(other)@ == self@.intersect(other@),
            self.spec_difference(other)@ == self@.difference(other@),
            self.spec_complement()@ == span(0, EVENT_COUNT as nat).difference(self@),
    {
        lemma_bits_zero();
        lemma_bits_or(self.bits, other.bits);
        lemma_bits_and(self.bits, other.bits);
        lemma_bits_and_not(self.bits, other.bits);
        lemma_bits_and_not(0xFF_FFFF_FFFF, self.bits);
        lemma_bits_all();
        lemma_bits_power_key();
    }

    /// What the group-wise operations mean, said of the views.
    pub proof fn lemma_group_views(self, group: IrqGroup, val: u8)
        ensures
            Self::spec_group(group)@ == group.events(),
            Self::spec_from_group_u8(group, val)@ == raised(byte_events(val), group.base()),
            byte_events(self.spec_into_group_u8(group)) == lowered(self@, group.base()).intersect(
                span(0, 8),
            ),
    {
        let k: nat = group.base();
        lemma_bits_shl(0xFF, k);
        lemma_bits_shl(val, k);
        lemma_bits_byte_at(self.bits, k);
        lemma_bits_ff();
        assert(raised(span(0, 8), k) =~= span(k, k + 8));
    }

    /// The operations keep their results inside the forty events.
    pub proof fn lemma_closed(self, other: EventsIrq, group: IrqGroup, val: u8)
        ensures
            Self::spec_none().wf(),
            Self::spec_all().wf(),
            Self::spec_power_key_short_press().wf(),
            Self::spec_group(group).wf(),
            Self::spec_from_group_u8(group, val).wf(),
            self.spec_complement().wf(),
            self.wf() ==> self.spec_intersect(other).wf(),
            self.wf() ==> self.spec_difference(other).wf(),
            self.wf() && other.wf() ==> self.spec_union(other).wf(),
    {
        self.lemma_views(other);
        self.lemma_group_views(group, val);
        lemma_bits_byte(val);
        self.lemma_wf();
        other.lemma_wf();
        Self::spec_none().lemma_wf();
        Self::spec_all().lemma_wf();
        Self::spec_power_key_short_press().lemma_wf();
        Self::spec_group(group).lemma_wf();
        Self::spec_from_group_u8(group, val).lemma_wf();
        self.spec_complement().lemma_wf();
        self.spec_intersect(other).lemma_wf();
        self.spec_difference(other).lemma_wf();
        self.spec_union(other).lemma_wf();
    }

    /// The set without events.
    #[verifier::when_used_as_spec(spec_none)]
    pub fn none() -> (r: EventsIrq)
        ensures
            r == Self::spec_none(),
            r@ == Set::<nat>::empty(),
    {
        proof {
            Self::spec_none().lemma_views(Self::spec_none());
        }
        EventsIrq { bits: 0 }
    }

    /// The set of all forty events.
    #[verifier::when_used_as_spec(spec_all)]
    pub fn all() -> (r: EventsIrq)
        ensures
            r == Self::spec_all(),
            r@ == span(0, EVENT_COUNT as nat),
    {
        proof {
            Self::spec_none().lemma_views(Self::spec_none());
        }
        EventsIrq { bits: 0xFF_FFFF_FFFF }
    }

    /// The single event raised by a short press of the power key.
    #[verifier::when_used_as_spec(spec_power_key_short_press)]
    pub fn power_key_short_press() -> (r: EventsIrq)
        ensures
            r == Self::spec_power_key_short_press(),
            r@ == set![POWER_KEY_SHORT_PRESS as nat],
    {
        proof {
            Self::spec_none().lemma_views(Self::spec_none());
        }
        EventsIrq { bits: 0x2_0000 }
    }

    /// The eight events of `group`.
    #[verifier::when_used_as_spec(spec_group)]
    pub fn group(group: IrqGroup) -> (r: EventsIrq)
        ensures
            r == Self::spec_group(group),
            r@ == group.events(),
    {
        proof {
            Self::spec_none().lemma_group_views(group, 0);
            Self::spec_none().lemma_closed(Self::spec_none(), group, 0);
        }
        EventsIrq { bits: 0xFFu64 << group.shift() }
    }

    /// The events of the first group.
    pub fn int1() -> (r: EventsIrq)
        ensures
            r@ == IrqGroup::Int1.events(),
    {
        Self::group(IrqGroup::Int1)
    }

    /// The events of the second group.
    pub fn int2() -> (r: EventsIrq)
        ensures
            r@ == IrqGroup::Int2.events(),
    {
        Self::group(IrqGroup::Int2)
    }

    /// The events of the third group.
    pub fn int3() -> (r: EventsIrq)
        ensures
            r@ == IrqGroup::Int3.events(),
    {
        Self::group(IrqGroup::Int3)
    }

    /// The events of the fourth group.
    pub fn int4() -> (r: EventsIrq)
        ensures
            r@ == IrqGroup::Int4.events(),
    {
        Self::group(IrqGroup::Int4)
    }

    /// The events of the fifth group.
    pub fn int5() -> (r: EventsIrq)
        ensures
            r@ == IrqGroup::Int5.events(),
    {
        Self::group(IrqGroup::Int5)
    }

    /// The events in either set.
    #[verifier::when_used_as_spec(spec_union)]
    pub fn union(self, other: EventsIrq) -> (r: EventsIrq)
        ensures
            r == self.spec_union(other),
            r@ == self@.union(other@),
    {
        proof {
            use_type_invariant(&self);
            use_type_invariant(&other);
            self.lemma_views(other);
            self.lemma_closed(other, IrqGroup::Int1, 0);
        }
        EventsIrq { bits: self.bits | other.bits }
    }

    /// The events in both sets.
    #[verifier::when_used_as_spec(spec_intersect)]
    pub fn intersect(self, other: EventsIrq) -> (r: EventsIrq)
        ensures
            r == self.spec_intersect(other),
            r@ == self@.intersect(other@),
    {
        proof {
            use_type_invariant(&self);
            self.lemma_views(other);
            self.lemma_closed(other, IrqGroup::Int1, 0);
        }
        EventsIrq { bits: self.bits & other.bits }
    }

    /// The events of `self` that are not in `other`.
    #[verifier::when_used_as_spec(spec_difference)]
    pub fn difference(self, other: EventsIrq) -> (r: EventsIrq)
        ensures
            r == self.spec_difference(other),
            r@ == self@.difference(other@),
    {
        proof {
            use_type_invariant(&self);
            self.lemma_views(other);
            self.lemma_closed(other, IrqGroup::Int1, 0);
        }
        EventsIrq { bits: self.bits & !other.bits }
    }

    /// The events, among the forty, that are not in `self`.
    #[verifier::when_used_as_spec(spec_complement)]
    pub fn complement(self) -> (r: EventsIrq)
        ensures
            r == self.spec_complement(),
            r@ == span(0, EVENT_COUNT as nat).difference(self@),
    {
        proof {
            self.lemma_views(self);
            self.lemma_closed(self, IrqGroup::Int1, 0);
        }
        EventsIrq { bits: 0xFF_FFFF_FFFF & !self.bits }
    }

    /// `self` with the events of `delta` added when `enable` is set, and
    /// with them taken away when it is not.
    #[verifier::when_used_as_spec(spec_toggle)]
    pub fn toggle(self, delta: EventsIrq, enable: bool) -> (r: EventsIrq)
        ensures
            r == self.spec_toggle(delta, enable),
            enable ==> r@ == self@.union(delta@),
            !enable ==> r@ == self@.difference(delta@),
    {
        if enable {
            self.union(delta)
        } else {
            self.difference(delta)
        }
    }

    /// Whether the set holds no event.
    #[verifier::when_used_as_spec(spec_is_none)]
    pub fn is_none(self) -> (r: bool)
        ensures
            r == (self@ == Set::<nat>::empty()),
    {
        proof {
            lemma_bits_zero();
            if self@ == Set::<nat>::empty() {
                lemma_bits_injective(self.bits, 0);
            }
        }
        self.bits == 0
    }

    /// Whether the two sets share an event.
    #[verifier::when_used_as_spec(spec_intersects)]
    pub fn intersects(self, other: EventsIrq) -> (r: bool)
        ensures
            r == !self@.disjoint(other@),
    {
        proof {
            lemma_bits_zero();
            lemma_bits_and(self.bits, other.bits);
            if self@.disjoint(other@) {
                assert(self@.intersect(other@) =~= Set::<nat>::empty());
                lemma_bits_injective(self.bits & other.bits, 0);
            }
            if self.bits & other.bits == 0 {
                assert forall|i: nat| self@.contains(i) implies !other@.contains(i) by {
                    assert(!self@.intersect(other@).contains(i));
                }
            }
        }
        self.bits & other.bits != 0
    }

    /// Whether every event of `other` is in `self`.
    #[verifier::when_used_as_spec(spec_contains)]
    pub fn contains(self, other: EventsIrq) -> (r: bool)
        ensures
            r == other@.subset_of(self@),
    {
        proof {
            lemma_bits_and(self.bits, other.bits);
            if other@.subset_of(self@) {
                assert(self@.intersect(other@) =~= other@);
                lemma_bits_injective(self.bits & other.bits, other.bits);
            }
        }
        self.bits & other.bits == other.bits
    }

    /// Whether the set holds an event of `group`.
    #[verifier::when_used_as_spec(spec_is_group)]
    pub fn is_group(self, group: IrqGroup) -> (r: bool)
        ensures
            r == !self@.disjoint(group.events()),
    {
        self.intersects(Self::group(group))
    }

    /// Whether the set holds an event of the first group.
    pub fn is_int1(&self) -> (r: bool)
        ensures
            r == !self@.disjoint(IrqGroup::Int1.events()),
    {
        self.is_group(IrqGroup::Int1)
    }

    /// Whether the set holds an event of the second group.
    pub fn is_int2(&self) -> (r: bool)
        ensures
            r == !self@.disjoint(IrqGroup::Int2.events()),
    {
        self.is_group(IrqGroup::Int2)
    }

    /// Whether the set holds an event of the third group.
    pub fn is_int3(&self) -> (r: bool)
        ensures
            r == !self@.disjoint(IrqGroup::Int3.events()),
    {
        self.is_group(IrqGroup::Int3)
    }

    /// Whether the set holds an event of the fourth group.
    pub fn is_int4(&self) -> (r: bool)
        ensures
            r == !self@.disjoint(IrqGroup::Int4.events()),
    {
        self.is_group(IrqGroup::Int4)
    }

    /// Whether the set holds an event of the fifth group.
    pub fn is_int5(&self) -> (r: bool)
        ensures
            r == !self@.disjoint(IrqGroup::Int5.events()),
    {
        self.is_group(IrqGroup::Int5)
    }

    /// The first group, counting from `group` on, that holds an event of the
    /// set, if there is one.
    pub open spec fn spec_first_group_from(self, group: IrqGroup) -> Option<IrqGroup>
        decreases 40 - group.base(),
    {
        if self.spec_is_group(group) {
            Some(group)
        } else {
            match group.spec_next() {
                Some(n) => self.spec_first_group_from(n),
                None => None,
            }
        }
    }

    /// The first group, counting from `group` on, that holds an event of the
    /// set, if there is one.
    #[verifier::when_used_as_spec(spec_first_group_from)]
    pub fn first_group_from(self, group: IrqGroup) -> (r: Option<IrqGroup>)
        ensures
            r == self.spec_first_group_from(group),
        decreases 40 - group.base(),
    {
        if self.is_group(group) {
            Some(group)
        } else {
            match group.next() {
                Some(n) => self.first_group_from(n),
                None => None,
            }
        }
    }

    /// The events that the byte `val` of `group` stands for: bit `k` of the
    /// byte is the group's event number `k`.
    #[verifier::when_used_as_spec(spec_from_group_u8)]
    pub fn from_group_u8(group: IrqGroup, val: u8) -> (r: EventsIrq)
        ensures
            r == Self::spec_from_group_u8(group, val),
            r@ == raised(byte_events(val), group.base()),
    {
        proof {
            Self::spec_none().lemma_group_views(group, val);
            Self::spec_none().lemma_closed(Self::spec_none(), group, val);
        }
        EventsIrq { bits: (val as u64) << group.shift() }
    }

    /// The byte of `group` that stands for the events of `self`; events of
    /// other groups are left out.
    #[verifier::when_used_as_spec(spec_into_group_u8)]
    pub fn into_group_u8(self, group: IrqGroup) -> (r: u8)
        ensures
            r == self.spec_into_group_u8(group),
            byte_events(r) == lowered(self@, group.base()).intersect(span(0, 8)),
    {
        proof {
            self.lemma_group_views(group, 0);
            lemma_bits_byte_at(self.bits, group.base());
        }
        ((self.bits >> group.shift()) & 0xFF) as u8
    }

    /// The events that a byte of the first group stands for.
    pub fn from_int1_u8(val: u8) -> (r: EventsIrq)
        ensures
            r@ == raised(byte_events(val), 0),
    {
        Self::from_group_u8(IrqGroup::Int1, val)
    }

    /// The events that a byte of the second group stands for.
    pub fn from_int2_u8(val: u8) -> (r: EventsIrq)
        ensures
            r@ == raised(byte_events(val), 8),
    {
        Self::from_group_u8(IrqGroup::Int2, val)
    }

    /// The events that a byte of the third group stands for.
    pub fn from_int3_u8(val: u8) -> (r: EventsIrq)
        ensures
            r@ == raised(byte_events(val), 16),
    {
        Self::from_group_u8(IrqGroup::Int3, val)
    }

    /// The events that a byte of the fourth group stands for.
    pub fn from_int4_u8(val: u8) -> (r: EventsIrq)
        ensures
            r@ == raised(byte_events(val), 24),
    {
        Self::from_group_u8(IrqGroup::Int4, val)
    }

    /// The events that a byte of the fifth group stands for.
    pub fn from_int5_u8(val: u8) -> (r: EventsIrq)
        ensures
            r@ == raised(byte_events(val), 32),
    {
        Self::from_group_u8(IrqGroup::Int5, val)
    }

    /// The byte of the first group that stands for the events of `self`.
    pub fn into_int1_u8(&self) -> (r: u8)
        ensures
            byte_events(r) == lowered(self@, 0).intersect(span(0, 8)),
    {
        self.into_group_u8(IrqGroup::Int1)
    }

    /// The byte of the second group that stands for the events of `self`.
    pub fn into_int2_u8(&self) -> (r: u8)
        ensures
            byte_events(r) == lowered(self@, 8).intersect(span(0, 8)),
    {
        self.into_group_u8(IrqGroup::Int2)
    }

    /// The byte of the third group that stands for the events of `self`.
    pub fn into_int3_u8(&self) -> (r: u8)
        ensures
            byte_events(r) == lowered(self@, 16).intersect(span(0, 8)),
    {
        self.into_group_u8(IrqGroup::Int3)
    }

    /// The byte of the fourth group that stands for the events of `self`.
    pub fn into_int4_u8(&self) -> (r: u8)
        ensures
            byte_events(r) == lowered(self@, 24).intersect(span(0, 8)),
    {
        self.into_group_u8(IrqGroup::Int4)
    }

    /// The byte of the fifth group that stands for the events of `self`.
    pub fn into_int5_u8(&self) -> (r: u8)
        ensures
            byte_events(r) == lowered(self@, 32).intersect(span(0, 8)),
    {
        self.into_group_u8(IrqGroup::Int5)
    }
}

/// A set of events that all lie in one group comes back unchanged when it is
/// written as that group's byte and the byte is read again.
pub proof fn lemma_group_keeps_events(m: EventsIrq, group: IrqGroup)
    requires
        m@.subset_of(group.events()),
    ensures
        EventsIrq::from_group_u8(group, m.into_group_u8(group)) == m,
{
    let k: nat = group.base();
    let byte: u8 = m.into_group_u8(group);
    let back: EventsIrq = EventsIrq::from_group_u8(group, byte);
    m.lemma_group_views(group, byte);
    assert(back@ =~= m@) by {
        assert forall|i: nat| back@.contains(i) == m@.contains(i) by {
            if i >= k {
                assert(((i - k) as nat) + k == i);
            }
            if m@.contains(i) {
                assert(group.events().contains(i));
            }
        }
    }
    back.lemma_view_injective(m);
}

/// Every byte comes back unchanged, all eight bits of it, when it is read as
/// the events of a group and those events are written as the group's byte.
pub proof fn lemma_group_keeps_byte(group: IrqGroup, byte: u8)
    ensures
        EventsIrq::from_group_u8(group, byte).into_group_u8(group) == byte,
{
    let k: nat = group.base();
    let m: EventsIrq = EventsIrq::from_group_u8(group, byte);
    let back: u8 = m.into_group_u8(group);
    m.lemma_group_views(group, byte);
    lemma_bits_byte(byte);
    assert(byte_events(back) =~= byte_events(byte)) by {
        assert forall|i: nat| byte_events(back).contains(i) == byte_events(byte).contains(i) by {
            assert(((i + k) - k) as nat == i);
            if byte_events(byte).contains(i) {
                assert(span(0, 8).contains(i));
            }
        }
    }
    lemma_bits_byte_injective(back, byte);
}

/// The events read from a byte of one group leave the byte of every other
/// group at zero.
pub proof fn lemma_group_leaves_others(group: IrqGroup, byte: u8, other: IrqGroup)
    requires
        other != group,
    ensures
        EventsIrq::from_group_u8(group, byte).into_group_u8(other) == 0,
{
    let m: EventsIrq = EventsIrq::from_group_u8(group, byte);
    let back: u8 = m.into_group_u8(other);
    m.lemma_group_views(group, byte);
    m.lemma_group_views(other, byte);
    lemma_bits_byte(byte);
    lemma_bits_zero();
    assert(byte_events(back) =~= byte_events(0)) by {
        assert forall|i: nat| !byte_events(back).contains(i) by {
            if i < 8 && m@.contains(i + other.base()) {
                let j: nat = ((i + other.base()) - group.base()) as nat;
                assert(byte_events(byte).contains(j));
                assert(span(0, 8).contains(j));
            }
        }
    }
    lemma_bits_byte_injective(back, 0);
}

/// Nothing is lost between the forty events and the five bytes: a set of
/// events is the union of what its five group bytes stand for.
pub proof fn lemma_groups_cover(m: EventsIrq)
    requires
        m.wf(),
    ensures
        EventsIrq::from_group_u8(IrqGroup::Int1, m.into_group_u8(IrqGroup::Int1)).union(
            EventsIrq::from_group_u8(IrqGroup::Int2, m.into_group_u8(IrqGroup::Int2)),
        ).union(EventsIrq::from_group_u8(IrqGroup::Int3, m.into_group_u8(IrqGroup::Int3))).union(
            EventsIrq::from_group_u8(IrqGroup::Int4, m.into_group_u8(IrqGroup::Int4)),
        ).union(EventsIrq::from_group_u8(IrqGroup::Int5, m.into_group_u8(IrqGroup::Int5))) == m,
{
    let part1: EventsIrq = EventsIrq::from_group_u8(IrqGroup::Int1, m.into_group_u8(IrqGroup::Int1));
    let part2: EventsIrq = EventsIrq::from_group_u8(IrqGroup::Int2, m.into_group_u8(IrqGroup::Int2));
    let part3: EventsIrq = EventsIrq::from_group_u8(IrqGroup::Int3, m.into_group_u8(IrqGroup::Int3));
    let part4: EventsIrq = EventsIrq::from_group_u8(IrqGroup::Int4, m.into_group_u8(IrqGroup::Int4));
    let part5: EventsIrq = EventsIrq::from_group_u8(IrqGroup::Int5, m.into_group_u8(IrqGroup::Int5));
    lemma_group_part(m, IrqGroup::Int1);
    lemma_group_part(m, IrqGroup::Int2);
    lemma_group_part(m, IrqGroup::Int3);
    lemma_group_part(m, IrqGroup::Int4);
    lemma_group_part(m, IrqGroup::Int5);
    let u2: EventsIrq = part1.union(part2);
    let u3: EventsIrq = u2.union(part3);
    let u4: EventsIrq = u3.union(part4);
    let u5: EventsIrq = u4.union(part5);
    part1.lemma_views(part2);
    u2.lemma_views(part3);
    u3.lemma_views(part4);
    u4.lemma_views(part5);
    m.lemma_wf();
    assert(u5@ =~= m@) by {
        assert forall|i: nat| u5@.contains(i) == m@.contains(i) by {
            if m@.contains(i) {
                assert(span(0, 40).contains(i));
            }
        }
    }
    u5.lemma_view_injective(m);
}

/// What a group's byte stands for is the part of the set that lies in the group.
proof fn lemma_group_part(m: EventsIrq, group: IrqGroup)
    ensures
        EventsIrq::from_group_u8(group, m.into_group_u8(group))@ == m@.intersect(group.events()),
{
    let k: nat = group.base();
    let byte: u8 = m.into_group_u8(group);
    let back: EventsIrq = EventsIrq::from_group_u8(group, byte);
    m.lemma_group_views(group, byte);
    assert(back@ =~= m@.intersect(group.events())) by {
        assert forall|i: nat| back@.contains(i) == m@.intersect(group.events()).contains(i) by {
            if i >= k {
                assert(((i - k) as nat) + k == i);
            }
        }
    }
}

/// The group found by `first_group_from` is the lowest one, from `group` on,
/// that holds an event of the set; none is found only where no such group
/// holds one.
pub proof fn lemma_first_group_from(irqs: EventsIrq, group: IrqGroup)
    ensures
        match irqs.first_group_from(group) {
            Some(found) => {
                &&& found.base() >= group.base()
                &&& irqs.is_group(found)
                &&& forall|g: IrqGroup|
                    group.base() <= g.base() < found.base() ==> !#[trigger] irqs.is_group(g)
            },
            None => forall|g: IrqGroup| g.base() >= group.base() ==> !#[trigger] irqs.is_group(g),
        },
    decreases 40 - group.base(),
{
    if !irqs.is_group(group) {
        match group.next() {
            Some(n) => {
                lemma_first_group_from(irqs, n);
                assert forall|g: IrqGroup| g.base() >= group.base() && g != group implies g.base()
                    >= n.base() by {}
            },
            None => {},
        }
    }
}

/// Switching events on keeps every event that was on and adds exactly the
/// requested ones; switching events off takes away exactly those requested
/// events that were on, and nothing else.
pub proof fn lemma_toggle_exact(current: EventsIrq, delta: EventsIrq)
    ensures
        current@.subset_of(current.toggle(delta, true)@),
        current.toggle(delta, true)@ == current@.union(delta@),
        current.toggle(delta, false)@ == current@.difference(delta@.intersect(current@)),
        current.toggle(delta, false)@.union(delta@.intersect(current@)) == current@,
        current.toggle(delta, false)@.disjoint(delta@),
{
    current.lemma_views(delta);
    assert(current.toggle(delta, false)@ =~= current@.difference(delta@.intersect(current@)));
    assert(current.toggle(delta, false)@.union(delta@.intersect(current@)) =~= current@);
}

/// Switching the same events the same way a second time changes nothing.
pub proof fn lemma_toggle_idempotent(current: EventsIrq, delta: EventsIrq, enable: bool)
    ensures
        current.toggle(delta, enable).toggle(delta, enable) == current.toggle(delta, enable),
{
    let once: EventsIrq = current.toggle(delta, enable);
    let twice: EventsIrq = once.toggle(delta, enable);
    current.lemma_views(delta);
    once.lemma_views(delta);
    assert(twice@ =~= once@);
    twice.lemma_view_injective(once);
}

proof fn lemma_bits_all()
    ensures
        bits_of(0xFF_FFFF_FFFF) == span(0, 40),
{
    lemma_bits_forty(0xFF_FFFF_FFFF);
    assert forall|i: nat| i < 40 implies bit_at(0xFF_FFFF_FFFF, i) by {
        let j: u64 = i as u64;
        assert((0xFF_FFFF_FFFFu64 >> j) & 1 == 1) by (bit_vector)
            requires
                j < 40,
        ;
    }
    assert(bits_of(0xFF_FFFF_FFFF) =~= span(0, 40));
}

proof fn lemma_bits_ff()
    ensures
        bits_of(0xFF) == span(0, 8),
{
    lemma_bits_byte(0xFF);
    assert forall|i: nat| i < 8 implies bit_at(0xFF, i) by {
        let j: u64 = i as u64;
        assert((0xFFu64 >> j) & 1 == 1) by (bit_vector)
            requires
                j < 8,
        ;
    }
    assert(bits_of(0xFF) =~= span(0, 8));
}

proof fn lemma_bits_power_key()
    ensures
        bits_of(0x2_0000) == set![17nat],
{
    assert forall|i: nat| bit_at(0x2_0000, i) == (i == 17) by {
        if i < 64 {
            let j: u64 = i as u64;
            assert(((0x2_0000u64 >> j) & 1 == 1) == (j == 17)) by (bit_vector)
                requires
                    j < 64,
            ;
        }
    }
    assert(bits_of(0x2_0000) =~= set![17nat]);
}

} // verus!
