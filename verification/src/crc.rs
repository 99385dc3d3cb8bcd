//! The two checksums of the control protocol.
//!
//! Both are reflected cyclic redundancy checks, processed one byte at a time
//! from a fixed seed. The 8-bit checksum guards the three header bytes of a
//! gram, the 16-bit checksum guards the whole gram but its last two bytes.
//!
//! The vehicle computes them from two tables of 256 remainders. Here they are
//! defined and computed by the division itself, one bit at a time, which
//! needs no table; `lemma_crc_table_form` shows that both ways agree.

use vstd::prelude::*;

verus! {

/// Generator polynomial of the 8-bit checksum, in reflected form.
pub const CRC8_POLY: u8 = 0x8c;

/// Start value of the 8-bit checksum.
pub const CRC8_SEED: u8 = 0x77;

/// Generator polynomial of the 16-bit checksum, in reflected form.
pub const CRC16_POLY: u16 = 0x8408;

/// Start value of the 16-bit checksum.
pub const CRC16_SEED: u16 = 0x3692;

/// One division step of the 8-bit register: the lowest bit leaves, and the
/// polynomial is added where that bit was set.
pub open spec fn crc8_shift(s: u8) -> u8 {
    if s & 1 == 1 {
        (s >> 1) ^ CRC8_POLY
    } else {
        s >> 1
    }
}

/// `n` division steps of the 8-bit register.
pub open spec fn crc8_shifts(s: u8, n: nat) -> u8
    decreases n,
{
    if n == 0 {
        s
    } else {
        crc8_shift(crc8_shifts(s, (n - 1) as nat))
    }
}

/// The 8-bit register after one more byte of input.
pub open spec fn crc8_byte(state: u8, byte: u8) -> u8 {
    crc8_shifts(state ^ byte, 8)
}

/// The 8-bit register after all of `bytes`, started at `state`.
pub open spec fn crc8_fold(state: u8, bytes: Seq<u8>) -> u8
    decreases bytes.len(),
{
    if bytes.len() == 0 {
        state
    } else {
        crc8_byte(crc8_fold(state, bytes.drop_last()), bytes.last())
    }
}

/// The 8-bit checksum of `bytes`.
pub open spec fn spec_crc8(bytes: Seq<u8>) -> u8 {
    crc8_fold(CRC8_SEED, bytes)
}

/// One division step of the 16-bit register.
pub open spec fn crc16_shift(s: u16) -> u16 {
    if s & 1 == 1 {
        (s >> 1) ^ CRC16_POLY
    } else {
        s >> 1
    }
}

/// `n` division steps of the 16-bit register.
pub open spec fn crc16_shifts(s: u16, n: nat) -> u16
    decreases n,
{
    if n == 0 {
        s
    } else {
        crc16_shift(crc16_shifts(s, (n - 1) as nat))
    }
}

/// The 16-bit register after one more byte of input.
pub open spec fn crc16_byte(state: u16, byte: u8) -> u16 {
    crc16_shifts(state ^ (byte as u16), 8)
}

/// The 16-bit register after all of `bytes`, started at `state`.
pub open spec fn crc16_fold(state: u16, bytes: Seq<u8>) -> u16
    decreases bytes.len(),
{
    if bytes.len() == 0 {
        state
    } else {
        crc16_byte(crc16_fold(state, bytes.drop_last()), bytes.last())
    }
}

/// The 16-bit checksum of `bytes`.
pub open spec fn spec_crc16(bytes: Seq<u8>) -> u16 {
    crc16_fold(CRC16_SEED, bytes)
}

fn crc8_update(state: u8, byte: u8) -> (next: u8)
    ensures
        next == crc8_byte(state, byte),
{
    let mut s: u8 = state ^ byte;
    let mut n: u8 = 0;
    while n < 8
        invariant
            n <= 8,
            s == crc8_shifts(state ^ byte, n as nat),
        decreases 8 - n,
    {
        s = if s & 1 == 1 {
            (s >> 1) ^ CRC8_POLY
        } else {
            s >> 1
        };
        n += 1;
    }
    s
}

fn crc16_update(state: u16, byte: u8) -> (next: u16)
    ensures
        next == crc16_byte(state, byte),
{
    let mut s: u16 = state ^ (byte as u16);
    let mut n: u8 = 0;
    while n < 8
        invariant
            n <= 8,
            s == crc16_shifts(state ^ (byte as u16), n as nat),
        decreases 8 - n,
    {
        s = if s & 1 == 1 {
            (s >> 1) ^ CRC16_POLY
        } else {
            s >> 1
        };
        n += 1;
    }
    s
}

/// Computes the 8-bit checksum of `bytes`.
pub fn crc8(bytes: &[u8]) -> (crc: u8)
    ensures
        crc == spec_crc8(bytes@),
{
    let mut crc: u8 = CRC8_SEED;
    let mut i: usize = 0;
    while i < bytes.len()
        invariant
            i <= bytes.len(),
            crc == crc8_fold(CRC8_SEED, bytes@.take(i as int)),
        decreases bytes.len() - i,
    {
        crc = crc8_update(crc, bytes[i]);
        proof {
            assert(bytes@.take(i + 1).drop_last() =~= bytes@.take(i as int));
        }
        i += 1;
    }
    proof {
        assert(bytes@.take(i as int) =~= bytes@);
    }
    crc
}

/// Computes the 16-bit checksum of `bytes`.
pub fn crc16(bytes: &[u8]) -> (crc: u16)
    ensures
        crc == spec_crc16(bytes@),
{
    let mut crc: u16 = CRC16_SEED;
    let mut i: usize = 0;
    while i < bytes.len()
        invariant
            i <= bytes.len(),
            crc == crc16_fold(CRC16_SEED, bytes@.take(i as int)),
        decreases bytes.len() - i,
    {
        crc = crc16_update(crc, bytes[i]);
        proof {
            assert(bytes@.take(i + 1).drop_last() =~= bytes@.take(i as int));
        }
        i += 1;
    }
    proof {
        assert(bytes@.take(i as int) =~= bytes@);
    }
    crc
}

/// A division step of the 8-bit register loses nothing: the top bit of the
/// result tells which bit left.
proof fn lemma_crc8_shifts_injective(a: u8, b: u8, n: nat)
    requires
        crc8_shifts(a, n) == crc8_shifts(b, n),
    ensures
        a == b,
    decreases n,
{
    if n > 0 {
        let x = crc8_shifts(a, (n - 1) as nat);
        let y = crc8_shifts(b, (n - 1) as nat);
        assert(crc8_shift(x) == crc8_shift(y) ==> x == y) by (bit_vector);
        lemma_crc8_shifts_injective(a, b, (n - 1) as nat);
    }
}

proof fn lemma_crc16_shifts_injective(a: u16, b: u16, n: nat)
    requires
        crc16_shifts(a, n) == crc16_shifts(b, n),
    ensures
        a == b,
    decreases n,
{
    if n > 0 {
        let x = crc16_shifts(a, (n - 1) as nat);
        let y = crc16_shifts(b, (n - 1) as nat);
        assert(crc16_shift(x) == crc16_shift(y) ==> x == y) by (bit_vector);
        lemma_crc16_shifts_injective(a, b, (n - 1) as nat);
    }
}

/// The 8-bit register after a byte determines, together with either the state
/// before or the byte, the other of the two.
pub proof fn lemma_crc8_byte_injective(s1: u8, b1: u8, s2: u8, b2: u8)
    requires
        crc8_byte(s1, b1) == crc8_byte(s2, b2),
    ensures
        s1 == s2 ==> b1 == b2,
        b1 == b2 ==> s1 == s2,
{
    lemma_crc8_shifts_injective(s1 ^ b1, s2 ^ b2, 8);
    assert((s1 ^ b1) == (s2 ^ b2) ==> (s1 == s2 <==> b1 == b2)) by (bit_vector);
}

/// The 16-bit register after a byte determines, together with either the state
/// before or the byte, the other of the two.
pub proof fn lemma_crc16_byte_injective(s1: u16, b1: u8, s2: u16, b2: u8)
    requires
        crc16_byte(s1, b1) == crc16_byte(s2, b2),
    ensures
        s1 == s2 ==> b1 == b2,
        b1 == b2 ==> s1 == s2,
{
    lemma_crc16_shifts_injective(s1 ^ (b1 as u16), s2 ^ (b2 as u16), 8);
    assert((s1 ^ (b1 as u16)) == (s2 ^ (b2 as u16)) ==> (s1 == s2 <==> b1 == b2))
        by (bit_vector);
}

/// Two byte strings of one length that differ in exactly one position have
/// different 8-bit checksums.
pub proof fn lemma_crc8_detects_one_byte(a: Seq<u8>, b: Seq<u8>, k: int)
    requires
        a.len() == b.len(),
        0 <= k < a.len(),
        a[k] != b[k],
        forall|i: int| 0 <= i < a.len() && i != k ==> a[i] == b[i],
    ensures
        spec_crc8(a) != spec_crc8(b),
{
    lemma_crc8_fold_detects_one_byte(CRC8_SEED, a, b, k);
}

proof fn lemma_crc8_fold_detects_one_byte(seed: u8, a: Seq<u8>, b: Seq<u8>, k: int)
    requires
        a.len() == b.len(),
        0 <= k < a.len(),
        a[k] != b[k],
        forall|i: int| 0 <= i < a.len() && i != k ==> a[i] == b[i],
    ensures
        crc8_fold(seed, a) != crc8_fold(seed, b),
    decreases a.len(),
{
    let sa = crc8_fold(seed, a.drop_last());
    let sb = crc8_fold(seed, b.drop_last());
    if k == a.len() - 1 {
        assert(a.drop_last() =~= b.drop_last());
    } else {
        lemma_crc8_fold_detects_one_byte(seed, a.drop_last(), b.drop_last(), k);
    }
    if crc8_byte(sa, a.last()) == crc8_byte(sb, b.last()) {
        lemma_crc8_byte_injective(sa, a.last(), sb, b.last());
    }
}

/// Two byte strings of one length that differ in exactly one position have
/// different 16-bit checksums.
pub proof fn lemma_crc16_detects_one_byte(a: Seq<u8>, b: Seq<u8>, k: int)
    requires
        a.len() == b.len(),
        0 <= k < a.len(),
        a[k] != b[k],
        forall|i: int| 0 <= i < a.len() && i != k ==> a[i] == b[i],
    ensures
        spec_crc16(a) != spec_crc16(b),
{
    lemma_crc16_fold_detects_one_byte(CRC16_SEED, a, b, k);
}

proof fn lemma_crc16_fold_detects_one_byte(seed: u16, a: Seq<u8>, b: Seq<u8>, k: int)
    requires
        a.len() == b.len(),
        0 <= k < a.len(),
        a[k] != b[k],
        forall|i: int| 0 <= i < a.len() && i != k ==> a[i] == b[i],
    ensures
        crc16_fold(seed, a) != crc16_fold(seed, b),
    decreases a.len(),
{
    let sa = crc16_fold(seed, a.drop_last());
    let sb = crc16_fold(seed, b.drop_last());
    if k == a.len() - 1 {
        assert(a.drop_last() =~= b.drop_last());
    } else {
        lemma_crc16_fold_detects_one_byte(seed, a.drop_last(), b.drop_last(), k);
    }
    if crc16_byte(sa, a.last()) == crc16_byte(sb, b.last()) {
        lemma_crc16_byte_injective(sa, a.last(), sb, b.last());
    }
}


/// Entry `i` of the table of remainders of the 8-bit checksum.
pub open spec fn crc8_table(i: u8) -> u8 {
    crc8_shifts(i, 8)
}

/// Entry `i` of the table of remainders of the 16-bit checksum.
pub open spec fn crc16_table(i: u8) -> u16 {
    crc16_shifts(i as u16, 8)
}

/// Bits of the 16-bit register above those that were divided do not take
/// part in the division: they only move down.
proof fn lemma_crc16_shifts_split(x: u16, n: nat)
    requires
        n <= 8,
    ensures
        crc16_shifts(x, n) == crc16_shifts(x & 0xff, n) ^ ((x & 0xff00) >> (n as u16)),
    decreases n,
{
    if n == 0 {
        assert(x == (x & 0xff) ^ ((x & 0xff00) >> 0u16)) by (bit_vector);
    } else {
        let m = (n - 1) as nat;
        lemma_crc16_shifts_split(x, m);
        let a = crc16_shifts(x & 0xff, m);
        let b = (x & 0xff00) >> (m as u16);
        let k = m as u16;
        let k1 = n as u16;
        assert(k < 8 && k1 == k + 1 ==> ((x & 0xff00) >> k) & 1 == 0 && ((x & 0xff00) >> k) >> 1
            == (x & 0xff00) >> k1) by (bit_vector);
        assert(b & 1 == 0 ==> crc16_shift(a ^ b) == crc16_shift(a) ^ (b >> 1)) by (bit_vector);
    }
}

/// The checksums in table form: one byte of input costs one look-up. For the
/// 8-bit checksum the index is the register combined with the byte; for the
/// 16-bit checksum it is the register's low byte combined with the byte, and
/// the register's high byte is added to the entry.
pub proof fn lemma_crc_table_form(state8: u8, state16: u16, byte: u8)
    ensures
        crc8_byte(state8, byte) == crc8_table(state8 ^ byte),
        crc16_byte(state16, byte) == crc16_table(((state16 & 0xff) as u8) ^ byte) ^ (state16
            >> 8),
{
    let x = state16 ^ (byte as u16);
    let i = ((state16 & 0xff) as u8) ^ byte;
    lemma_crc16_shifts_split(x, 8);
    assert(x == state16 ^ (byte as u16) && i == ((state16 & 0xff) as u8) ^ byte ==> x & 0xff
        == i as u16 && (x & 0xff00) >> 8u16 == state16 >> 8) by (bit_vector);
}

} // verus!
