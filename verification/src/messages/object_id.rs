//! Object identifiers: the two most significant bits tell who made the
//! identifier, the other 62 bits identify the object.

use vstd::prelude::*;
use crate::messages::enums::ObjectIdentifierType;

verus! {

/// Mask keeping the 62 identifying bits.
pub const ID_MASK: u64 = 0x3FFF_FFFF_FFFF_FFFF;

/// The two most significant bits of an identifier.
pub open spec fn id_marker(id: u64) -> u64 {
    (id >> 62) & 3
}

/// Origin that the marker of `id` stands for.
pub open spec fn object_id_type(id: u64) -> ObjectIdentifierType {
    if id_marker(id) == 0 {
        ObjectIdentifierType::USER_GENERATED
    } else if id_marker(id) == 1 {
        ObjectIdentifierType::BROKER_GENERATED
    } else if id_marker(id) == 2 {
        ObjectIdentifierType::TEMPORARY
    } else {
        ObjectIdentifierType::UNKNOWN
    }
}

/// Marker bits that stand for each origin; none for `UNKNOWN`.
pub open spec fn type_marker(t: ObjectIdentifierType) -> u64 {
    match t {
        ObjectIdentifierType::USER_GENERATED => 0,
        ObjectIdentifierType::BROKER_GENERATED => 0x4000_0000_0000_0000,
        ObjectIdentifierType::TEMPORARY => 0x8000_0000_0000_0000,
        ObjectIdentifierType::UNKNOWN => 0,
    }
}

/// Identifier made from the time `now` with the marker of `t`, or 0 for
/// an unknown origin.
pub open spec fn marked_id(t: ObjectIdentifierType, now: u64) -> u64 {
    match t {
        ObjectIdentifierType::UNKNOWN => 0,
        _ => (now & ID_MASK) | type_marker(t),
    }
}

/// Returns the origin of the object identifier `id`, read from its two
/// most significant bits.
pub fn get_object_id_type(id: u64) -> (r: ObjectIdentifierType)
    ensures
        r == object_id_type(id),
{
    let msb = (id >> 62) & 0b11;
    if msb == 0b00 {
        ObjectIdentifierType::USER_GENERATED
    } else if msb == 0b01 {
        ObjectIdentifierType::BROKER_GENERATED
    } else if msb == 0b10 {
        ObjectIdentifierType::TEMPORARY
    } else {
        ObjectIdentifierType::UNKNOWN
    }
}

/// Makes an object identifier from the time `now` (nanoseconds since the
/// UNIX epoch, truncated to 64 bits) whose two most significant bits
/// mark the origin `id_type`; an unknown origin gives 0.
pub fn generate_object_id(id_type: ObjectIdentifierType, now: u64) -> (r: u64)
    ensures
        r == marked_id(id_type, now),
{
    let u64_with_msb_00 = now & ID_MASK;
    match id_type {
        ObjectIdentifierType::USER_GENERATED => u64_with_msb_00 | 0x0000_0000_0000_0000,
        ObjectIdentifierType::BROKER_GENERATED => u64_with_msb_00 | 0x4000_0000_0000_0000,
        ObjectIdentifierType::TEMPORARY => u64_with_msb_00 | 0x8000_0000_0000_0000,
        ObjectIdentifierType::UNKNOWN => 0,
    }
}

/// An identifier made for a known origin is read back as that origin,
/// and keeps the 62 low bits of the time it was made from.
pub proof fn lemma_generated_id_type(t: ObjectIdentifierType, now: u64)
    requires
        t != ObjectIdentifierType::UNKNOWN,
    ensures
        object_id_type(marked_id(t, now)) == t,
        marked_id(t, now) & ID_MASK == now & ID_MASK,
{
    let m = now & 0x3FFF_FFFF_FFFF_FFFF;
    assert(((m | 0) >> 62) & 3 == 0 && (m | 0) & 0x3FFF_FFFF_FFFF_FFFF == m) by (bit_vector)
        requires
            m == now & 0x3FFF_FFFF_FFFF_FFFF,
    ;
    assert(((m | 0x4000_0000_0000_0000) >> 62) & 3 == 1 && (m | 0x4000_0000_0000_0000)
        & 0x3FFF_FFFF_FFFF_FFFF == m) by (bit_vector)
        requires
            m == now & 0x3FFF_FFFF_FFFF_FFFF,
    ;
    assert(((m | 0x8000_0000_0000_0000) >> 62) & 3 == 2 && (m | 0x8000_0000_0000_0000)
        & 0x3FFF_FFFF_FFFF_FFFF == m) by (bit_vector)
        requires
            m == now & 0x3FFF_FFFF_FFFF_FFFF,
    ;
    assert(m & 0x3FFF_FFFF_FFFF_FFFF == m) by (bit_vector)
        requires
            m == now & 0x3FFF_FFFF_FFFF_FFFF,
    ;
}

/// The identifier that a user-made identifier becomes once the broker
/// takes it over: same 62 low bits, broker marker.
pub open spec fn broker_marked(id: u64) -> u64 {
    (id & ID_MASK) | 0x4000_0000_0000_0000
}

/// Computes `broker_marked(id)`.
pub fn mark_as_broker_id(id: u64) -> (r: u64)
    ensures
        r == broker_marked(id),
        object_id_type(r) == ObjectIdentifierType::BROKER_GENERATED,
{
    proof {
        assert((((id & 0x3FFF_FFFF_FFFF_FFFF) | 0x4000_0000_0000_0000) >> 62) & 3 == 1)
            by (bit_vector);
    }
    (id & ID_MASK) | 0x4000_0000_0000_0000
}

/// The bit field `b[0] b[1] ... b[7]`, most significant bit first; each
/// entry is shifted by its position and bits shifted out are lost.
pub open spec fn bitfield_byte(b: Seq<u8>) -> u8 {
    (b[0] << 7u8) | (b[1] << 6u8) | (b[2] << 5u8) | (b[3] << 4u8) | (b[4] << 3u8) | (b[5] << 2u8) | (
    b[6] << 1u8) | (b[7] << 0u8)
}

/// Packs a bit field given most significant bit first into a byte.
pub fn vec_to_u8(bitfield: Vec<u8>) -> (r: u8)
    requires
        bitfield@.len() >= 8,
    ensures
        r == bitfield_byte(bitfield@),
{
    (bitfield[0] << 7u8) | (bitfield[1] << 6u8) | (bitfield[2] << 5u8) | (bitfield[3] << 4u8) | (
    bitfield[4] << 3u8) | (bitfield[5] << 2u8) | (bitfield[6] << 1u8) | (bitfield[7] << 0u8)
}


/// A bit field of zeros and ones packs into the number it writes in base
/// two.
pub proof fn lemma_bitfield_byte(b: Seq<u8>)
    requires
        b.len() == 8,
        forall|i: int| 0 <= i < 8 ==> #[trigger] b[i] <= 1,
    ensures
        bitfield_byte(b) == 128 * b[0] + 64 * b[1] + 32 * b[2] + 16 * b[3] + 8 * b[4] + 4 * b[5]
            + 2 * b[6] + b[7],
{
    let (x0, x1, x2, x3, x4, x5, x6, x7) = (b[0], b[1], b[2], b[3], b[4], b[5], b[6], b[7]);
    assert(b[0] <= 1 && b[1] <= 1 && b[2] <= 1 && b[3] <= 1);
    assert(b[4] <= 1 && b[5] <= 1 && b[6] <= 1 && b[7] <= 1);
    assert((x0 << 7u8) | (x1 << 6u8) | (x2 << 5u8) | (x3 << 4u8) | (x4 << 3u8) | (x5 << 2u8) | (x6
        << 1u8) | (x7 << 0u8) == 128 * x0 + 64 * x1 + 32 * x2 + 16 * x3 + 8 * x4 + 4 * x5 + 2 * x6
        + x7) by (bit_vector)
        requires
            x0 <= 1 && x1 <= 1 && x2 <= 1 && x3 <= 1 && x4 <= 1 && x5 <= 1 && x6 <= 1 && x7 <= 1,
    ;
}

/// Packs a bit field of eight zeros and ones, most significant bit first.
pub fn flag_byte(bits: Vec<u8>) -> (r: u8)
    requires
        bits@.len() == 8,
        forall|i: int| 0 <= i < 8 ==> #[trigger] bits@[i] <= 1,
    ensures
        r == 128 * bits@[0] + 64 * bits@[1] + 32 * bits@[2] + 16 * bits@[3] + 8 * bits@[4] + 4
            * bits@[5] + 2 * bits@[6] + bits@[7],
{
    proof {
        lemma_bitfield_byte(bits@);
    }
    vec_to_u8(bits)
}

} // verus!
