//! The gram: the binary unit of the control protocol.
//!
//! A gram is a byte string with a fixed layout. Multi-byte fields are
//! little-endian.
//!
//! | offset     | field                                              |
//! |------------|----------------------------------------------------|
//! | 0          | header, `0xcc`                                     |
//! | 1..3       | size field: the gram's length in bytes, times 8    |
//! | 3          | 8-bit checksum of bytes 0..3                       |
//! | 4          | discriminator: direction, packet type and subtype  |
//! | 5..7       | message id                                         |
//! | 7..9       | sequence number                                    |
//! | 9..len-2   | payload                                            |
//! | len-2..len | 16-bit checksum of bytes 0..len-2, low byte first  |
//!
//! The model of a gram is this byte string itself, a `Seq<u8>`; every field is
//! a function of it.

use vstd::prelude::*;
use vstd::slice::slice_subrange;
use crate::crc::{crc16, crc8, spec_crc16, spec_crc8};

verus! {

/// Number of bytes of a gram with an empty payload.
pub const GRAM_SIZE: usize = 11;

/// The first byte of every gram.
pub const GRAM_HEADER: u8 = 0xcc;

/// Offset of the payload within a gram.
pub const PAYLOAD_OFFSET: usize = 9;

/// Bit of the discriminator that marks a gram sent by the vehicle.
pub const FROM_DRONE_BIT: u8 = 0x80;

/// Bit of the discriminator that marks a gram sent to the vehicle.
pub const TO_DRONE_BIT: u8 = 0x40;

/// The largest length that the size field can hold.
pub const MAX_GRAM_SIZE: usize = 8191;

/// Why a buffer was not accepted as a gram.
#[derive(Clone, Copy, Debug, PartialEq, Eq, Structural)]
pub enum GramError {
    /// Fewer than 11 bytes were received.
    TooShort,
    /// The size field names fewer than 11 bytes, or more than were received.
    SizeMismatch,
    /// One of the two checksums does not match the bytes it covers.
    ChecksumInvalid,
}

/// Who sent a gram, as its discriminator says.
#[derive(Clone, Copy, Debug, PartialEq, Eq, Structural)]
pub enum TelloGramDirection {
    ToDrone,
    FromDrone,
    Unknown,
}

/// The 16-bit value whose low byte is `lo` and whose high byte is `hi`.
pub open spec fn u16_le(lo: u8, hi: u8) -> u16 {
    (lo as int + 256 * (hi as int)) as u16
}

/// The low byte of `v`.
pub open spec fn low_byte(v: u16) -> u8 {
    (v % 256) as u8
}

/// The high byte of `v`.
pub open spec fn high_byte(v: u16) -> u8 {
    (v / 256) as u8
}

pub open spec fn wire_header(b: Seq<u8>) -> u8 {
    b[0]
}

/// The size field as it stands on the wire: eight times the length.
pub open spec fn wire_size_field(b: Seq<u8>) -> u16 {
    u16_le(b[1], b[2])
}

/// The length in bytes that the size field declares.
pub open spec fn wire_size(b: Seq<u8>) -> nat {
    (wire_size_field(b) / 8) as nat
}

pub open spec fn wire_crc8(b: Seq<u8>) -> u8 {
    b[3]
}

pub open spec fn wire_discriminator(b: Seq<u8>) -> u8 {
    b[4]
}

pub open spec fn wire_id(b: Seq<u8>) -> u16 {
    u16_le(b[5], b[6])
}

pub open spec fn wire_sequence(b: Seq<u8>) -> u16 {
    u16_le(b[7], b[8])
}

/// The payload: what stands between the nine header bytes and the checksum.
pub open spec fn wire_payload(b: Seq<u8>) -> Seq<u8> {
    b.subrange(PAYLOAD_OFFSET as int, b.len() - 2)
}

/// The trailing checksum, read low byte first.
pub open spec fn wire_crc16(b: Seq<u8>) -> u16 {
    u16_le(b[b.len() - 2], b[b.len() - 1])
}

/// The direction that a discriminator names. The vehicle's bit wins where
/// both are set.
pub open spec fn direction_of(d: u8) -> TelloGramDirection {
    if d & FROM_DRONE_BIT != 0 {
        TelloGramDirection::FromDrone
    } else if d & TO_DRONE_BIT != 0 {
        TelloGramDirection::ToDrone
    } else {
        TelloGramDirection::Unknown
    }
}

/// The three bits of a discriminator that hold the packet type.
pub open spec fn packet_type_of(d: u8) -> u8 {
    (d >> 3) & 0x7
}

/// The three bits of a discriminator that hold the packet subtype.
pub open spec fn packet_subtype_of(d: u8) -> u8 {
    d & 0x7
}

/// A byte string is framed as a gram when it has at least 11 bytes and its
/// size field declares exactly its length.
pub open spec fn framed(b: Seq<u8>) -> bool {
    b.len() >= GRAM_SIZE && wire_size(b) == b.len()
}

/// Both checksums of a framed byte string match the bytes they cover.
pub open spec fn checksums_valid(b: Seq<u8>) -> bool {
    &&& spec_crc8(b.subrange(0, 3)) == wire_crc8(b)
    &&& spec_crc16(b.subrange(0, b.len() - 2)) == wire_crc16(b)
}

/// The number of bytes of `buffer` that were received: `received_len`, but
/// never more than the buffer holds.
pub open spec fn received(buffer: Seq<u8>, received_len: nat) -> nat {
    if received_len <= buffer.len() {
        received_len
    } else {
        buffer.len()
    }
}

/// The bytes of the gram that stands at the start of `buffer`, or the reason
/// why there is none, before any checksum is looked at.
pub open spec fn frame_spec(buffer: Seq<u8>, received_len: nat) -> Result<Seq<u8>, GramError> {
    if received(buffer, received_len) < GRAM_SIZE {
        Err(GramError::TooShort)
    } else if wire_size(buffer) < GRAM_SIZE || wire_size(buffer) > received(buffer, received_len) {
        Err(GramError::SizeMismatch)
    } else {
        Ok(buffer.subrange(0, wire_size(buffer) as int))
    }
}

/// The bytes of the valid gram that stands at the start of `buffer`, or the
/// reason why there is none.
pub open spec fn decode_spec(buffer: Seq<u8>, received_len: nat) -> Result<Seq<u8>, GramError> {
    match frame_spec(buffer, received_len) {
        Err(e) => Err(e),
        Ok(b) => if checksums_valid(b) {
            Ok(b)
        } else {
            Err(GramError::ChecksumInvalid)
        },
    }
}

/// The size field of a gram of `total` bytes: `total * 8`, cut to 16 bits.
pub open spec fn encode_size_field(total: nat) -> u16 {
    ((total * 8) % 0x10000) as u16
}

/// The discriminator of an outbound gram of packet type `kind`: the bit for
/// the vehicle as receiver, the low three bits of `kind`, and subtype 0.
pub open spec fn encode_discriminator(kind: u8) -> u8 {
    TO_DRONE_BIT | ((kind << 3) & 0x38)
}

/// The first three bytes of a gram of `total` bytes.
pub open spec fn encode_prefix(total: nat) -> Seq<u8> {
    seq![
        GRAM_HEADER,
        low_byte(encode_size_field(total)),
        high_byte(encode_size_field(total)),
    ]
}

/// All of an outbound gram but its trailing checksum.
pub open spec fn encode_body(kind: u8, id: u16, sequence: u16, payload: Seq<u8>) -> Seq<u8> {
    let prefix = encode_prefix(payload.len() + GRAM_SIZE as nat);
    prefix + seq![
        spec_crc8(prefix),
        encode_discriminator(kind),
        low_byte(id),
        high_byte(id),
        low_byte(sequence),
        high_byte(sequence),
    ] + payload
}

/// The outbound gram of packet type `kind` with the given id, sequence number
/// and payload.
pub open spec fn encode_spec(kind: u8, id: u16, sequence: u16, payload: Seq<u8>) -> Seq<u8> {
    let body = encode_body(kind, id, sequence, payload);
    body + seq![low_byte(spec_crc16(body)), high_byte(spec_crc16(body))]
}

/// A framed gram: at least 11 bytes, as many as its size field declares.
/// Its checksums may or may not be valid; `decode` hands out valid grams only.
#[derive(Debug, PartialEq, Eq)]
pub struct TelloGram {
    bytes: Vec<u8>,
}

impl View for TelloGram {
    type V = Seq<u8>;

    closed spec fn view(&self) -> Seq<u8> {
        self.bytes@
    }
}

fn read_u16_le(lo: u8, hi: u8) -> (v: u16)
    ensures
        v == u16_le(lo, hi),
{
    let l: u16 = lo as u16;
    let h: u16 = hi as u16;
    l + 256 * h
}

impl TelloGram {
    #[verifier::type_invariant]
    spec fn well_framed(self) -> bool {
        framed(self.bytes@)
    }

    /// Takes the gram that stands at the start of `buffer`, of which the first
    /// `received_len` bytes were received, without looking at its checksums.
    pub fn frame(buffer: &[u8], received_len: usize) -> (r: Result<TelloGram, GramError>)
        ensures
            match r {
                Ok(g) => frame_spec(buffer@, received_len as nat) == Ok::<Seq<u8>, GramError>(g@)
                    && framed(g@),
                Err(e) => frame_spec(buffer@, received_len as nat) == Err::<Seq<u8>, GramError>(e),
            },
    {
        let avail: usize = if received_len <= buffer.len() {
            received_len
        } else {
            buffer.len()
        };
        if avail < GRAM_SIZE {
            return Err(GramError::TooShort);
        }
        let size: usize = (read_u16_le(buffer[1], buffer[2]) / 8) as usize;
        if size < GRAM_SIZE || size > avail {
            return Err(GramError::SizeMismatch);
        }
        let mut bytes: Vec<u8> = Vec::with_capacity(size);
        let mut i: usize = 0;
        while i < size
            invariant
                i <= size <= buffer.len(),
                bytes@ == buffer@.subrange(0, i as int),
            decreases size - i,
        {
            bytes.push(buffer[i]);
            i += 1;
        }
        Ok(TelloGram { bytes })
    }

    /// The header byte.
    pub fn header(&self) -> (r: u8)
        ensures
            r == wire_header(self@),
    {
        proof {
            use_type_invariant(self);
        }
        self.bytes[0]
    }

    /// The length of the gram in bytes, as its size field declares it.
    pub fn size(&self) -> (r: usize)
        ensures
            r == wire_size(self@),
            r == self@.len(),
            r >= GRAM_SIZE,
    {
        proof {
            use_type_invariant(self);
        }
        self.bytes.len()
    }

    /// The 8-bit checksum that the gram carries.
    pub fn crc8(&self) -> (r: u8)
        ensures
            r == wire_crc8(self@),
    {
        proof {
            use_type_invariant(self);
        }
        self.bytes[3]
    }

    /// Who sent the gram.
    pub fn packet_direction(&self) -> (r: TelloGramDirection)
        ensures
            r == direction_of(wire_discriminator(self@)),
    {
        proof {
            use_type_invariant(self);
        }
        let d: u8 = self.bytes[4];
        if d & FROM_DRONE_BIT != 0 {
            TelloGramDirection::FromDrone
        } else if d & TO_DRONE_BIT != 0 {
            TelloGramDirection::ToDrone
        } else {
            TelloGramDirection::Unknown
        }
    }

    /// The packet type, a value below 8.
    pub fn packet_type(&self) -> (r: u8)
        ensures
            r == packet_type_of(wire_discriminator(self@)),
            r < 8,
    {
        proof {
            use_type_invariant(self);
        }
        let d: u8 = self.bytes[4];
        assert((d >> 3) & 0x7 < 8) by (bit_vector);
        (d >> 3) & 0x7
    }

    /// The packet subtype, a value below 8.
    pub fn packet_subtype(&self) -> (r: u8)
        ensures
            r == packet_subtype_of(wire_discriminator(self@)),
            r < 8,
    {
        proof {
            use_type_invariant(self);
        }
        let d: u8 = self.bytes[4];
        assert(d & 0x7 < 8) by (bit_vector);
        d & 0x7
    }

    /// The message id.
    pub fn id(&self) -> (r: u16)
        ensures
            r == wire_id(self@),
    {
        proof {
            use_type_invariant(self);
        }
        read_u16_le(self.bytes[5], self.bytes[6])
    }

    /// The sequence number.
    pub fn sequence(&self) -> (r: u16)
        ensures
            r == wire_sequence(self@),
    {
        proof {
            use_type_invariant(self);
        }
        read_u16_le(self.bytes[7], self.bytes[8])
    }

    /// A copy of the payload.
    pub fn payload(&self) -> (r: Vec<u8>)
        ensures
            r@ == wire_payload(self@),
            r@.len() == self@.len() - GRAM_SIZE,
    {
        proof {
            use_type_invariant(self);
        }
        let end: usize = self.bytes.len() - 2;
        let mut out: Vec<u8> = Vec::with_capacity(end - PAYLOAD_OFFSET);
        let mut i: usize = PAYLOAD_OFFSET;
        while i < end
            invariant
                PAYLOAD_OFFSET <= i <= end,
                end == self.bytes@.len() - 2,
                out@ == self.bytes@.subrange(PAYLOAD_OFFSET as int, i as int),
            decreases end - i,
        {
            out.push(self.bytes[i]);
            i += 1;
        }
        out
    }

    /// The 16-bit checksum that the gram carries.
    pub fn crc16(&self) -> (r: u16)
        ensures
            r == wire_crc16(self@),
    {
        proof {
            use_type_invariant(self);
        }
        let n: usize = self.bytes.len();
        read_u16_le(self.bytes[n - 2], self.bytes[n - 1])
    }

    /// Whether both checksums match the bytes they cover.
    pub fn is_valid(&self) -> (r: bool)
        ensures
            r == checksums_valid(self@),
    {
        proof {
            use_type_invariant(self);
        }
        let n: usize = self.bytes.len();
        let all: &[u8] = self.bytes.as_slice();
        let header_slice: &[u8] = slice_subrange(all, 0, 3);
        let covered_slice: &[u8] = slice_subrange(all, 0, n - 2);
        crc8(header_slice) == self.crc8() && crc16(covered_slice) == self.crc16()
    }

    /// The gram's bytes as they stand on the wire.
    pub fn as_bytes(&self) -> (r: &[u8])
        ensures
            r@ == self@,
    {
        self.bytes.as_slice()
    }
}

/// Decodes the gram that stands at the start of `buffer`, of which the first
/// `received_len` bytes were received.
///
/// A `received_len` beyond the end of `buffer` counts as the buffer's length.
/// Bytes after the gram's declared size are ignored. The header byte is
/// guarded by the 8-bit checksum like the size field; it is not compared
/// with `0xcc`.
pub fn decode(buffer: &[u8], received_len: usize) -> (r: Result<TelloGram, GramError>)
    ensures
        match r {
            Ok(g) => decode_spec(buffer@, received_len as nat) == Ok::<Seq<u8>, GramError>(g@)
                && framed(g@) && checksums_valid(g@),
            Err(e) => decode_spec(buffer@, received_len as nat) == Err::<Seq<u8>, GramError>(e),
        },
        received_len < GRAM_SIZE || buffer@.len() < GRAM_SIZE ==> r == Err::<TelloGram, GramError>(
            GramError::TooShort,
        ),
        received(buffer@, received_len as nat) >= GRAM_SIZE && wire_size(buffer@) > received(
            buffer@,
            received_len as nat,
        ) ==> r == Err::<TelloGram, GramError>(GramError::SizeMismatch),
{
    match TelloGram::frame(buffer, received_len) {
        Err(e) => Err(e),
        Ok(gram) => {
            if gram.is_valid() {
                Ok(gram)
            } else {
                Err(GramError::ChecksumInvalid)
            }
        },
    }
}

/// Encodes an outbound gram of packet type `kind` with the given message id,
/// sequence number and payload.
///
/// Only the low three bits of `kind` are kept. A length above 8191 does not
/// fit the size field, which then holds the length times 8 cut to 16 bits.
pub fn encode(kind: u8, id: u16, sequence: u16, payload: &[u8]) -> (buffer: Vec<u8>)
    ensures
        buffer@ == encode_spec(kind, id, sequence, payload@),
        buffer@.len() == payload@.len() + GRAM_SIZE,
        buffer@.len() <= MAX_GRAM_SIZE ==> {
            &&& decode_spec(buffer@, buffer@.len()) == Ok::<Seq<u8>, GramError>(buffer@)
            &&& packet_type_of(wire_discriminator(buffer@)) == kind % 8
            &&& wire_id(buffer@) == id
            &&& wire_sequence(buffer@) == sequence
            &&& wire_payload(buffer@) == payload@
        },
{
    proof {
        if payload@.len() + GRAM_SIZE <= MAX_GRAM_SIZE {
            lemma_decode_encode_round_trip(kind, id, sequence, payload@);
        }
    }
    let size_field: u16 = ((((payload.len() % 8192) + GRAM_SIZE) * 8) % 0x10000) as u16;
    assert(size_field == encode_size_field(payload@.len() + GRAM_SIZE as nat));
    let mut buffer: Vec<u8> = Vec::new();
    buffer.push(GRAM_HEADER);
    buffer.push((size_field % 256) as u8);
    buffer.push((size_field / 256) as u8);
    assert(buffer@ =~= encode_prefix(payload@.len() + GRAM_SIZE as nat));
    let header_crc: u8 = crc8(buffer.as_slice());
    buffer.push(header_crc);
    buffer.push(TO_DRONE_BIT | ((kind << 3) & 0x38));
    buffer.push((id % 256) as u8);
    buffer.push((id / 256) as u8);
    buffer.push((sequence % 256) as u8);
    buffer.push((sequence / 256) as u8);
    let ghost head = buffer@;
    assert(head + payload@ =~= encode_body(kind, id, sequence, payload@));
    let mut i: usize = 0;
    while i < payload.len()
        invariant
            i <= payload.len(),
            buffer@ == head + payload@.subrange(0, i as int),
        decreases payload.len() - i,
    {
        buffer.push(payload[i]);
        i += 1;
    }
    assert(payload@.subrange(0, i as int) =~= payload@);
    let crc: u16 = crc16(buffer.as_slice());
    buffer.push((crc % 256) as u8);
    buffer.push((crc / 256) as u8);
    assert(buffer@ =~= encode_spec(kind, id, sequence, payload@));
    buffer
}

/// A 16-bit value is the one that its two bytes spell.
pub proof fn lemma_u16_le_bytes(v: u16)
    ensures
        u16_le(low_byte(v), high_byte(v)) == v,
{
}

/// Two byte pairs spell the same 16-bit value only if they are the same pair.
pub proof fn lemma_u16_le_injective(lo1: u8, hi1: u8, lo2: u8, hi2: u8)
    requires
        u16_le(lo1, hi1) == u16_le(lo2, hi2),
    ensures
        lo1 == lo2,
        hi1 == hi2,
{
}

/// What `encode` writes into the discriminator reads back as a gram for the
/// vehicle, of the packet type given, with subtype 0.
pub proof fn lemma_discriminator_round_trip(kind: u8)
    ensures
        direction_of(encode_discriminator(kind)) == TelloGramDirection::ToDrone,
        packet_type_of(encode_discriminator(kind)) == kind % 8,
        packet_subtype_of(encode_discriminator(kind)) == 0,
{
    assert((0x40u8 | ((kind << 3) & 0x38)) & 0x80 == 0) by (bit_vector);
    assert((0x40u8 | ((kind << 3) & 0x38)) & 0x40 != 0) by (bit_vector);
    assert(((0x40u8 | ((kind << 3) & 0x38)) >> 3) & 0x7 == kind % 8) by (bit_vector);
    assert((0x40u8 | ((kind << 3) & 0x38)) & 0x7 == 0) by (bit_vector);
}

/// Decoding is the inverse of encoding: where the gram's length fits the size
/// field, the encoded gram decodes to itself, and its packet type, message id,
/// sequence number and payload are those that were encoded.
pub proof fn lemma_decode_encode_round_trip(kind: u8, id: u16, sequence: u16, payload: Seq<u8>)
    requires
        payload.len() + GRAM_SIZE <= MAX_GRAM_SIZE,
    ensures
        ({
            let wire = encode_spec(kind, id, sequence, payload);
            &&& wire.len() == payload.len() + GRAM_SIZE
            &&& decode_spec(wire, wire.len()) == Ok::<Seq<u8>, GramError>(wire)
            &&& wire_header(wire) == GRAM_HEADER
            &&& direction_of(wire_discriminator(wire)) == TelloGramDirection::ToDrone
            &&& packet_type_of(wire_discriminator(wire)) == kind % 8
            &&& packet_subtype_of(wire_discriminator(wire)) == 0
            &&& wire_id(wire) == id
            &&& wire_sequence(wire) == sequence
            &&& wire_payload(wire) == payload
        }),
{
    let total = payload.len() + GRAM_SIZE as nat;
    let prefix = encode_prefix(total);
    let body = encode_body(kind, id, sequence, payload);
    let wire = encode_spec(kind, id, sequence, payload);
    lemma_u16_le_bytes(encode_size_field(total));
    lemma_u16_le_bytes(id);
    lemma_u16_le_bytes(sequence);
    lemma_u16_le_bytes(spec_crc16(body));
    lemma_discriminator_round_trip(kind);
    assert(wire.subrange(0, total as int) =~= wire);
    assert(wire.subrange(0, 3) =~= prefix);
    assert(wire.subrange(0, wire.len() - 2) =~= body);
    assert(wire_payload(wire) =~= payload);
}

/// `buffer` with the byte at `k` replaced by `x`.
pub open spec fn corrupt(buffer: Seq<u8>, k: int, x: u8) -> Seq<u8> {
    buffer.update(k, x)
}

/// `buffer` with one bit of the byte at `k` inverted.
pub open spec fn flip_bit(buffer: Seq<u8>, k: int, bit: u8) -> Seq<u8> {
    buffer.update(k, buffer[k] ^ (1u8 << bit))
}

/// A buffer that holds a valid gram no longer decodes once one byte of the
/// gram is changed. Where the change leaves the size field naming a length
/// of at least 11 that was received, a checksum fails; otherwise the size
/// is refused.
pub proof fn lemma_corrupt_byte_rejected(buffer: Seq<u8>, received_len: nat, k: int, x: u8)
    requires
        decode_spec(buffer, received_len) is Ok,
        0 <= k < wire_size(buffer),
        x != buffer[k],
    ensures
        ({
            let changed = corrupt(buffer, k, x);
            let avail = received(buffer, received_len);
            decode_spec(changed, received_len) == if GRAM_SIZE <= wire_size(changed) <= avail {
                Err::<Seq<u8>, GramError>(GramError::ChecksumInvalid)
            } else {
                Err::<Seq<u8>, GramError>(GramError::SizeMismatch)
            }
        }),
{
    let changed = corrupt(buffer, k, x);
    let n = wire_size(buffer) as int;
    let m = wire_size(changed) as int;
    let gram = buffer.subrange(0, n);
    if GRAM_SIZE <= m <= received(buffer, received_len) {
        let other = changed.subrange(0, m);
        if k < 3 {
            // The header changed; the checksum that guards it did not.
            crate::crc::lemma_crc8_detects_one_byte(gram.subrange(0, 3), other.subrange(0, 3), k);
        } else if k == 3 {
            // The header's checksum changed; the header did not.
            assert(other.subrange(0, 3) =~= gram.subrange(0, 3));
        } else if k < n - 2 {
            // A covered byte changed; the trailing checksum did not.
            assert(other.subrange(0, 3) =~= gram.subrange(0, 3));
            crate::crc::lemma_crc16_detects_one_byte(
                gram.subrange(0, n - 2),
                other.subrange(0, n - 2),
                k,
            );
            assert(wire_crc16(other) == wire_crc16(gram));
        } else {
            // The trailing checksum changed; the bytes that it covers did not.
            assert(other.subrange(0, n - 2) =~= gram.subrange(0, n - 2));
            if wire_crc16(other) == wire_crc16(gram) {
                lemma_u16_le_injective(other[n - 2], other[n - 1], gram[n - 2], gram[n - 1]);
            }
        }
        assert(!checksums_valid(other));
    }
}

/// Inverting any one bit of a valid gram makes a checksum fail, as long as
/// the size field still names a length of at least 11 that was received.
/// (A bit of the size field that takes the declared length out of that range
/// has the gram refused for its size instead.)
pub proof fn lemma_bit_flip_detected(buffer: Seq<u8>, received_len: nat, k: int, bit: u8)
    requires
        decode_spec(buffer, received_len) is Ok,
        0 <= k < wire_size(buffer),
        bit < 8,
        GRAM_SIZE <= wire_size(flip_bit(buffer, k, bit)) <= received(buffer, received_len),
    ensures
        decode_spec(flip_bit(buffer, k, bit), received_len) == Err::<Seq<u8>, GramError>(
            GramError::ChecksumInvalid,
        ),
{
    let old_byte = buffer[k];
    assert(bit < 8 ==> old_byte ^ (1u8 << bit) != old_byte) by (bit_vector);
    lemma_corrupt_byte_rejected(buffer, received_len, k, old_byte ^ (1u8 << bit));
}

/// A bit flip outside the two bytes of the size field never changes the
/// declared length, so it always ends in a failed checksum.
pub proof fn lemma_bit_flip_outside_size_detected(
    buffer: Seq<u8>,
    received_len: nat,
    k: int,
    bit: u8,
)
    requires
        decode_spec(buffer, received_len) is Ok,
        0 <= k < wire_size(buffer),
        k != 1 && k != 2,
        bit < 8,
    ensures
        decode_spec(flip_bit(buffer, k, bit), received_len) == Err::<Seq<u8>, GramError>(
            GramError::ChecksumInvalid,
        ),
{
    lemma_bit_flip_detected(buffer, received_len, k, bit);
}

/// Inverting any one bit of an encoded gram makes a checksum fail when the
/// gram is decoded, as long as the size field still names a length of at
/// least 11 and at most the gram's own.
pub proof fn lemma_encoded_gram_bit_flip_detected(
    kind: u8,
    id: u16,
    sequence: u16,
    payload: Seq<u8>,
    k: int,
    bit: u8,
)
    requires
        payload.len() + GRAM_SIZE <= MAX_GRAM_SIZE,
        0 <= k < payload.len() + GRAM_SIZE,
        bit < 8,
        GRAM_SIZE <= wire_size(flip_bit(encode_spec(kind, id, sequence, payload), k, bit))
            <= payload.len() + GRAM_SIZE,
    ensures
        decode_spec(
            flip_bit(encode_spec(kind, id, sequence, payload), k, bit),
            payload.len() + GRAM_SIZE as nat,
        ) == Err::<Seq<u8>, GramError>(GramError::ChecksumInvalid),
{
    let wire = encode_spec(kind, id, sequence, payload);
    lemma_decode_encode_round_trip(kind, id, sequence, payload);
    lemma_bit_flip_detected(wire, wire.len(), k, bit);
}

} // verus!
