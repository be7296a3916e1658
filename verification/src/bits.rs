//! Machine words read as sets of bit positions.

use vstd::prelude::*;

verus! {

/// Whether bit `i` of `x` is one.
pub open spec fn bit_at(x: u64, i: nat) -> bool {
    i < 64 && (x >> (i as u64)) & 1 == 1
}

/// The positions of the one bits of `x`.
pub open spec fn bits_of(x: u64) -> Set<nat> {
    Set::new(|i: nat| bit_at(x, i))
}

/// The positions from `lo` up to, but not including, `hi`.
pub open spec fn span(lo: nat, hi: nat) -> Set<nat> {
    Set::new(|i: nat| lo <= i < hi)
}

/// Every position of `s` moved up by `k`.
pub open spec fn raised(s: Set<nat>, k: nat) -> Set<nat> {
    Set::new(|i: nat| i >= k && s.contains((i - k) as nat))
}

/// The positions of `s` at or above `k`, moved down by `k`.
pub open spec fn lowered(s: Set<nat>, k: nat) -> Set<nat> {
    Set::new(|i: nat| s.contains(i + k))
}

pub proof fn lemma_bits_zero()
    ensures
        bits_of(0) == Set::<nat>::empty(),
{
    assert forall|i: nat| !bit_at(0, i) by {
        if i < 64 {
            let j: u64 = i as u64;
            assert((0u64 >> j) & 1 == 0) by (bit_vector);
        }
    }
    assert(bits_of(0) =~= Set::<nat>::empty());
}

pub proof fn lemma_bits_or(a: u64, b: u64)
    ensures
        bits_of(a | b) == bits_of(a).union(bits_of(b)),
{
    assert forall|i: nat| bit_at(a | b, i) == (bit_at(a, i) || bit_at(b, i)) by {
        if i < 64 {
            let j: u64 = i as u64;
            assert((((a | b) >> j) & 1 == 1) == ((a >> j) & 1 == 1 || (b >> j) & 1 == 1))
                by (bit_vector);
        }
    }
    assert(bits_of(a | b) =~= bits_of(a).union(bits_of(b)));
}

pub proof fn lemma_bits_and(a: u64, b: u64)
    ensures
        bits_of(a & b) == bits_of(a).intersect(bits_of(b)),
{
    assert forall|i: nat| bit_at(a & b, i) == (bit_at(a, i) && bit_at(b, i)) by {
        if i < 64 {
            let j: u64 = i as u64;
            assert((((a & b) >> j) & 1 == 1) == ((a >> j) & 1 == 1 && (b >> j) & 1 == 1))
                by (bit_vector);
        }
    }
    assert(bits_of(a & b) =~= bits_of(a).intersect(bits_of(b)));
}

pub proof fn lemma_bits_and_not(a: u64, b: u64)
    ensures
        bits_of(a & !b) == bits_of(a).difference(bits_of(b)),
{
    assert forall|i: nat| bit_at(a & !b, i) == (bit_at(a, i) && !bit_at(b, i)) by {
        if i < 64 {
            let j: u64 = i as u64;
            assert((((a & !b) >> j) & 1 == 1) == ((a >> j) & 1 == 1 && !((b >> j) & 1 == 1)))
                by (bit_vector);
        }
    }
    assert(bits_of(a & !b) =~= bits_of(a).difference(bits_of(b)));
}

/// A word below `2^n` has no bit at or above `n`, and the other way round.
pub proof fn lemma_bits_bound(x: u64, n: nat)
    requires
        n < 64,
    ensures
        x < (1u64 << (n as u64)) <==> bits_of(x).subset_of(span(0, n)),
{
    let m: u64 = n as u64;
    if x < (1u64 << m) {
        assert forall|i: nat| bit_at(x, i) implies i < n by {
            let j: u64 = i as u64;
            assert(j < m) by (bit_vector)
                requires
                    m < 64,
                    j < 64,
                    x < (1u64 << m),
                    (x >> j) & 1 == 1,
            ;
        }
    } else {
        let j: u64 = lemma_high_bit(x, m);
        assert(bit_at(x, j as nat));
        assert(bits_of(x).contains(j as nat));
        assert(!span(0, n).contains(j as nat));
    }
}

/// A word that is not below `2^m` has a one bit at or above `m`.
proof fn lemma_high_bit(x: u64, m: u64) -> (j: u64)
    requires
        m < 64,
        x >= (1u64 << m),
    ensures
        m <= j < 64,
        (x >> j) & 1 == 1,
    decreases 64 - m,
{
    if (x >> m) & 1 == 1 {
        m
    } else {
        assert(m < 63 && x >= (1u64 << ((m + 1) as u64))) by (bit_vector)
            requires
                m < 64,
                x >= (1u64 << m),
                (x >> m) & 1 != 1,
        ;
        lemma_high_bit(x, (m + 1) as u64)
    }
}

/// Two words with the same one bits are the same word.
pub proof fn lemma_bits_injective(a: u64, b: u64)
    requires
        bits_of(a) == bits_of(b),
    ensures
        a == b,
{
    if a != b {
        let x: u64 = a ^ b;
        assert(x >= (1u64 << 0u64)) by (bit_vector)
            requires
                x == a ^ b,
                a != b,
        ;
        let j: u64 = lemma_high_bit(x, 0);
        assert(((a >> j) & 1 == 1) != ((b >> j) & 1 == 1)) by (bit_vector)
            requires
                x == a ^ b,
                j < 64,
                (x >> j) & 1 == 1,
        ;
        assert(bits_of(a).contains(j as nat) == bit_at(a, j as nat));
        assert(bits_of(b).contains(j as nat) == bit_at(b, j as nat));
    }
}

/// A byte moved up by `k` places has the byte's bits, each `k` places higher.
pub proof fn lemma_bits_shl(byte: u8, k: nat)
    requires
        k <= 56,
    ensures
        bits_of((byte as u64) << (k as u64)) == raised(bits_of(byte as u64), k),
{
    let s: u64 = k as u64;
    let b: u64 = byte as u64;
    assert forall|i: nat| bit_at(b << s, i) == (i >= k && bit_at(b, (i - k) as nat)) by {
        if i < 64 {
            let j: u64 = i as u64;
            if i >= k {
                let d: u64 = (i - k) as u64;
                assert((((b << s) >> j) & 1 == 1) == ((b >> d) & 1 == 1)) by (bit_vector)
                    requires
                        s <= 56,
                        b < 256,
                        j < 64,
                        j >= s,
                        d == j - s,
                ;
            } else {
                assert(((b << s) >> j) & 1 == 0) by (bit_vector)
                    requires
                        s <= 56,
                        j < s,
                ;
            }
        } else {
            if i - k < 64 {
                let e: u64 = (i - k) as u64;
                assert((b >> e) & 1 == 0) by (bit_vector)
                    requires
                        b < 256,
                        8 <= e < 64,
                ;
            }
        }
    }
    assert(bits_of(b << s) =~= raised(bits_of(b), k));
}

/// The byte taken out of a word `k` places up has the word's bits from `k` to
/// `k + 8`, each `k` places lower.
pub proof fn lemma_bits_byte_at(x: u64, k: nat)
    requires
        k <= 56,
    ensures
        (x >> (k as u64)) & 0xFF < 256,
        bits_of((x >> (k as u64)) & 0xFF) == lowered(bits_of(x), k).intersect(span(0, 8)),
{
    let s: u64 = k as u64;
    let r: u64 = (x >> s) & 0xFF;
    assert(r < 256) by (bit_vector)
        requires
            r == (x >> s) & 0xFF,
    ;
    assert forall|i: nat| bit_at(r, i) == (i < 8 && bit_at(x, i + k)) by {
        if i < 8 {
            let j: u64 = i as u64;
            let u: u64 = (i + k) as u64;
            assert(((r >> j) & 1 == 1) == ((x >> u) & 1 == 1)) by (bit_vector)
                requires
                    r == (x >> s) & 0xFF,
                    s <= 56,
                    j < 8,
                    u == j + s,
            ;
        } else if i < 64 {
            let j: u64 = i as u64;
            assert((r >> j) & 1 == 0) by (bit_vector)
                requires
                    r < 256,
                    8 <= j < 64,
            ;
        }
    }
    assert(bits_of(r) =~= lowered(bits_of(x), k).intersect(span(0, 8)));
}

/// A byte has its one bits among the lowest eight.
pub proof fn lemma_bits_byte(byte: u8)
    ensures
        bits_of(byte as u64).subset_of(span(0, 8)),
{
    assert((1u64 << 8u64) == 256) by (bit_vector);
    lemma_bits_bound(byte as u64, 8);
}

/// Two bytes with the same one bits are the same byte.
pub proof fn lemma_bits_byte_injective(a: u8, b: u8)
    requires
        bits_of(a as u64) == bits_of(b as u64),
    ensures
        a == b,
{
    lemma_bits_injective(a as u64, b as u64);
}

/// The words that fit in forty bits are those with no bit at or above forty.
pub proof fn lemma_bits_forty(x: u64)
    ensures
        x <= 0xFF_FFFF_FFFF <==> bits_of(x).subset_of(span(0, 40)),
{
    assert((1u64 << 40u64) == 0x100_0000_0000) by (bit_vector);
    lemma_bits_bound(x, 40);
}

} // verus!
