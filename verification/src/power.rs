//! The switchable power rails of the chip, as a set, and the byte that
//! carries them in the rail control register.

use crate::bits::{
    bit_at, bits_of, lemma_bits_and, lemma_bits_and_not, lemma_bits_byte_injective,
    lemma_bits_or, lemma_bits_zero,
};
use vstd::prelude::*;

verus! {

/// Position of the EXTEN rail in the rail control byte.
pub const EXTEN: u8 = 0;

/// Position of the DC-DC3 rail in the rail control byte.
pub const DCDC3: u8 = 1;

/// Position of the LDO2 rail in the rail control byte.
pub const LDO2: u8 = 2;

/// Position of the LDO4 rail in the rail control byte.
pub const LDO4: u8 = 3;

/// Position of the DC-DC2 rail in the rail control byte.
pub const DCDC2: u8 = 4;

/// Position of the LDO3 rail in the rail control byte.
pub const LDO3: u8 = 6;

/// Whether rails are to be switched on or off.
#[derive(Clone, Copy, Debug, PartialEq, Eq, Structural)]
pub enum State {
    On,
    Off,
}

/// A set of power rails. Bit `k` of the rail control byte is position `k`;
/// position 5 has no name and is carried along untouched.
#[derive(Clone, Copy, Debug, PartialEq, Eq, Structural)]
pub struct Power {
    bits: u8,
}

impl View for Power {
    type V = Set<nat>;

    /// The rails in the set, by position.
    closed spec fn view(&self) -> Set<nat> {
        bits_of(self.bits as u64)
    }
}

impl Power {
    /// Two sets of rails with the same view are the same value.
    pub proof fn lemma_view_injective(self, other: Power)
        requires
            self@ == other@,
        ensures
            self == other,
    {
        lemma_bits_byte_injective(self.bits, other.bits);
    }

    /// `none`, as it reads in contracts.
    pub closed spec fn spec_none() -> Power {
        Power { bits: 0 }
    }

    /// `rail`, as it reads in contracts.
    pub closed spec fn spec_rail(position: u8) -> Power {
        Power { bits: 1u8 << position }
    }

    /// `from_u8`, as it reads in contracts.
    pub closed spec fn spec_from_u8(val: u8) -> Power {
        Power { bits: val }
    }

    /// `into_u8`, as it reads in contracts.
    pub closed spec fn spec_into_u8(self) -> u8 {
        self.bits
    }

    /// `union`, as it reads in contracts.
    pub closed spec fn spec_union(self, other: Power) -> Power {
        Power { bits: self.bits | other.bits }
    }

    /// `intersect`, as it reads in contracts.
    pub closed spec fn spec_intersect(self, other: Power) -> Power {
        Power { bits: self.bits & other.bits }
    }

    /// `difference`, as it reads in contracts.
    pub closed spec fn spec_difference(self, other: Power) -> Power {
        Power { bits: self.bits & !other.bits }
    }

    /// `toggle`, as it reads in contracts.
    pub open spec fn spec_toggle(self, delta: Power, enable: bool) -> Power {
        if enable {
            self.spec_union(delta)
        } else {
            self.spec_difference(delta)
        }
    }

    /// `is_none`, as it reads in contracts.
    pub open spec fn spec_is_none(self) -> bool {
        self@ == Set::<nat>::empty()
    }

    /// `intersects`, as it reads in contracts.
    pub open spec fn spec_intersects(self, other: Power) -> bool {
        !self@.disjoint(other@)
    }

    /// `contains`, as it reads in contracts.
    pub open spec fn spec_contains(self, other: Power) -> bool {
        other@.subset_of(self@)
    }

    /// What the operations mean, said of the views.
    pub proof fn lemma_views(self, other: Power)
        ensures
            Self::spec_none()@ == Set::<nat>::empty(),
            self.spec_union(other)@ == self@.union(other@),
            self.spec_intersect(other)@ == self@.intersect(other@),
            self.spec_difference(other)@ == self@.difference(other@),
            bits_of(self.spec_into_u8() as u64) == self@,
            self.spec_into_u8() == 0 <==> self@ == Set::<nat>::empty(),
            Self::spec_from_u8(self.spec_into_u8()) == self,
    {
        let a: u8 = self.bits;
        let b: u8 = other.bits;
        lemma_bits_zero();
        lemma_bits_or(a as u64, b as u64);
        lemma_bits_and(a as u64, b as u64);
        lemma_bits_and_not(a as u64, b as u64);
        assert((a | b) as u64 == (a as u64) | (b as u64)) by (bit_vector);
        assert((a & b) as u64 == (a as u64) & (b as u64)) by (bit_vector);
        assert((a & !b) as u64 == (a as u64) & !(b as u64)) by (bit_vector);
        if self@ == Set::<nat>::empty() {
            lemma_bits_byte_injective(a, 0);
        }
    }

    /// What a byte of the rail control register stands for: bit `k` of the
    /// byte is the rail at position `k`.
    pub proof fn lemma_byte_view(val: u8)
        ensures
            Self::spec_from_u8(val)@ == bits_of(val as u64),
            Self::spec_from_u8(val).spec_into_u8() == val,
    {
    }

    /// A single rail is the set of its position.
    pub proof fn lemma_rail_view(position: u8)
        requires
            position < 8,
        ensures
            Self::spec_rail(position)@ == set![position as nat],
    {
        let x: u8 = 1u8 << position;
        let w: u64 = x as u64;
        assert forall|i: nat| #[trigger] bit_at(w, i) == (i == position as nat) by {
            if i < 64 {
                let j: u64 = i as u64;
                assert(((w >> j) & 1 == 1) == (j == position as u64)) by (bit_vector)
                    requires
                        w == (1u8 << position) as u64,
                        position < 8,
                        j < 64,
                ;
            }
        }
        assert(bits_of(w) =~= set![position as nat]);
    }

    /// The set without rails.
    #[verifier::when_used_as_spec(spec_none)]
    pub fn none() -> (r: Power)
        ensures
            r == Self::spec_none(),
            r@ == Set::<nat>::empty(),
    {
        proof {
            Self::spec_none().lemma_views(Self::spec_none());
        }
        Power { bits: 0 }
    }

    /// The rail at `position` alone. Positions are counted from the lowest
    /// bit of the rail control byte.
    #[verifier::when_used_as_spec(spec_rail)]
    fn rail(position: u8) -> (r: Power)
        requires
            position < 8,
        ensures
            r == Self::spec_rail(position),
            r@ == set![position as nat],
    {
        proof {
            Self::lemma_rail_view(position);
        }
        Power { bits: 1u8 << position }
    }

    /// The EXTEN rail.
    pub fn exten() -> (r: Power)
        ensures
            r == Self::spec_rail(EXTEN),
            r@ == set![EXTEN as nat],
    {
        Self::rail(EXTEN)
    }

    /// The DC-DC3 rail.
    pub fn dc_dc3() -> (r: Power)
        ensures
            r == Self::spec_rail(DCDC3),
            r@ == set![DCDC3 as nat],
    {
        Self::rail(DCDC3)
    }

    /// The LDO2 rail.
    pub fn ldo2() -> (r: Power)
        ensures
            r == Self::spec_rail(LDO2),
            r@ == set![LDO2 as nat],
    {
        Self::rail(LDO2)
    }

    /// The LDO4 rail.
    pub fn ldo4() -> (r: Power)
        ensures
            r == Self::spec_rail(LDO4),
            r@ == set![LDO4 as nat],
    {
        Self::rail(LDO4)
    }

    /// The DC-DC2 rail.
    pub fn dc_dc2() -> (r: Power)
        ensures
            r == Self::spec_rail(DCDC2),
            r@ == set![DCDC2 as nat],
    {
        Self::rail(DCDC2)
    }

    /// The LDO3 rail.
    pub fn ldo3() -> (r: Power)
        ensures
            r == Self::spec_rail(LDO3),
            r@ == set![LDO3 as nat],
    {
        Self::rail(LDO3)
    }

    /// The rails that a byte of the rail control register stands for.
    #[verifier::when_used_as_spec(spec_from_u8)]
    pub fn from_u8(val: u8) -> (r: Power)
        ensures
            r == Self::spec_from_u8(val),
            r@ == bits_of(val as u64),
    {
        Power { bits: val }
    }

    /// The byte of the rail control register that stands for these rails.
    #[verifier::when_used_as_spec(spec_into_u8)]
    pub fn into_u8(self) -> (r: u8)
        ensures
            r == self.spec_into_u8(),
            bits_of(r as u64) == self@,
    {
        self.bits
    }

    /// The rails in either set.
    #[verifier::when_used_as_spec(spec_union)]
    pub fn union(self, other: Power) -> (r: Power)
        ensures
            r == self.spec_union(other),
            r@ == self@.union(other@),
    {
        proof {
            self.lemma_views(other);
        }
        Power { bits: self.bits | other.bits }
    }

    /// The rails in both sets.
    #[verifier::when_used_as_spec(spec_intersect)]
    pub fn intersect(self, other: Power) -> (r: Power)
        ensures
            r == self.spec_intersect(other),
            r@ == self@.intersect(other@),
    {
        proof {
            self.lemma_views(other);
        }
        Power { bits: self.bits & other.bits }
    }

    /// The rails of `self` that are not in `other`.
    #[verifier::when_used_as_spec(spec_difference)]
    pub fn difference(self, other: Power) -> (r: Power)
        ensures
            r == self.spec_difference(other),
            r@ == self@.difference(other@),
    {
        proof {
            self.lemma_views(other);
        }
        Power { bits: self.bits & !other.bits }
    }

    /// `self` with the rails of `delta` added when `enable` is set, and with
    /// them taken away when it is not.
    #[verifier::when_used_as_spec(spec_toggle)]
    pub fn toggle(self, delta: Power, enable: bool) -> (r: Power)
        ensures
            r == self.spec_toggle(delta, enable),
            enable ==> r@ == self@.union(delta@),
            !enable ==> r@ == self@.difference(delta@),
    {
        if enable {
            self.union(delta)
        } else {
            self.difference(delta)
        }
    }

    /// Whether the set holds no rail.
    #[verifier::when_used_as_spec(spec_is_none)]
    pub fn is_none(self) -> (r: bool)
        ensures
            r == (self@ == Set::<nat>::empty()),
    {
        proof {
            self.lemma_views(self);
        }
        self.bits == 0
    }

    /// Whether the two sets share a rail.
    #[verifier::when_used_as_spec(spec_intersects)]
    pub fn intersects(self, other: Power) -> (r: bool)
        ensures
            r == !self@.disjoint(other@),
    {
        let both = self.intersect(other);
        proof {
            if self@.disjoint(other@) {
                assert(both@ =~= Set::<nat>::empty());
            }
            if both@ == Set::<nat>::empty() {
                assert forall|i: nat| self@.contains(i) implies !other@.contains(i) by {
                    assert(!both@.contains(i));
                }
            }
        }
        !both.is_none()
    }

    /// Whether every rail of `other` is in `self`.
    #[verifier::when_used_as_spec(spec_contains)]
    pub fn contains(self, other: Power) -> (r: bool)
        ensures
            r == other@.subset_of(self@),
    {
        let both = self.intersect(other);
        proof {
            if other@.subset_of(self@) {
                assert(both@ =~= other@);
                both.lemma_view_injective(other);
            }
        }
        both.bits == other.bits
    }
}

/// Switching rails on keeps every rail that was on and adds exactly the
/// requested ones; switching rails off takes away exactly those requested
/// rails that were on, and nothing else.
pub proof fn lemma_power_toggle_exact(current: Power, delta: Power)
    ensures
        current@.subset_of(current.toggle(delta, true)@),
        current.toggle(delta, true)@ == current@.union(delta@),
        current.toggle(delta, false)@ == current@.difference(delta@.intersect(current@)),
        current.toggle(delta, false)@.union(delta@.intersect(current@)) == current@,
        current.toggle(delta, false)@.disjoint(delta@),
{
    current.lemma_views(delta);
    assert(current.toggle(delta, false)@ =~= current@.difference(delta@.intersect(current@)));
    assert(current.toggle(delta, false)@.union(delta@.intersect(current@)) =~= current@);
}

/// Switching the same rails the same way a second time changes nothing.
pub proof fn lemma_power_toggle_idempotent(current: Power, delta: Power, enable: bool)
    ensures
        current.toggle(delta, enable).toggle(delta, enable) == current.toggle(delta, enable),
{
    let once: Power = current.toggle(delta, enable);
    let twice: Power = once.toggle(delta, enable);
    current.lemma_views(delta);
    once.lemma_views(delta);
    assert(twice@ =~= once@);
    twice.lemma_view_injective(once);
}

} // verus!
