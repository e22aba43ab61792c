//! Identity codec: packs and unpacks the fixed-width bitfield that the
//! simulation attaches to every rigid body and collider as its opaque
//! per-body tag, so that the simulation and the persistent store can
//! cross-reference an entity without auxiliary maps.
//!
//! Layout of the packed value, from the least significant bit upward:
//! tick_count (8 bits), block (1 bit), modifier (8 bits), hit_count
//! (8 bits), raw_id (32 bits), flag (1 bit), object_function (8 bits),
//! body_type (8 bits). All ranges are disjoint.

use vstd::prelude::*;

verus! {

/// Shift of the tick_count field (lowest 8 bits).
pub const TICK_COUNT_SHIFT: u32 = 0;
/// Shift of the block bit.
pub const BLOCK_SHIFT: u32 = 8;
/// Shift of the modifier field (8 bits).
pub const MODIFIER_SHIFT: u32 = 9;
/// Shift of the hit_count field (8 bits).
pub const HIT_COUNT_SHIFT: u32 = 17;
/// Shift of the raw entity id field (32 bits).
pub const RAW_ID_SHIFT: u32 = 25;
/// Shift of the flag bit.
pub const FLAG_SHIFT: u32 = 57;
/// Shift of the object_function field (8 bits).
pub const OBJECT_FUNCTION_SHIFT: u32 = 58;
/// Shift of the body_type field (8 bits).
pub const BODY_TYPE_SHIFT: u32 = 66;

/// The complete per-body tag payload carried by the physics engine.
#[derive(Clone, Copy, Debug, PartialEq, Eq, Structural)]
pub struct UserData {
    pub body_type: u8,
    pub object_function: u8,
    pub flag: bool,
    pub raw_id: u32,
    pub hit_count: u8,
    pub modifier: u8,
    pub block: bool,
    pub tick_count: u8,
}

/// Placement of all eight fields at their documented shifts, over bare
/// scalars; the bit ranges are disjoint, so the fields never overlap.
pub open spec fn pack_bits(
    bt: u8,
    of: u8,
    fl: bool,
    id: u32,
    hc: u8,
    md: u8,
    bl: bool,
    tc: u8,
) -> u128 {
    ((bt as u128) << 66) | ((of as u128) << 58) | ((if fl {
        1u128
    } else {
        0u128
    }) << 57) | ((id as u128) << 25) | ((hc as u128) << 17) | ((md as u128) << 9) | ((if bl {
        1u128
    } else {
        0u128
    }) << 8) | (tc as u128)
}

/// Mathematical definition of packing a payload.
pub open spec fn spec_pack(d: UserData) -> u128 {
    pack_bits(
        d.body_type,
        d.object_function,
        d.flag,
        d.raw_id,
        d.hit_count,
        d.modifier,
        d.block,
        d.tick_count,
    )
}

/// Mathematical definition of unpacking: each field is read back from
/// its documented bit range.
pub open spec fn spec_unpack(data: u128) -> UserData {
    UserData {
        body_type: (data >> 66) as u8,
        object_function: ((data >> 58) & 0xFF) as u8,
        flag: ((data >> 57) & 0x1) != 0,
        raw_id: ((data >> 25) & 0xFFFF_FFFF) as u32,
        hit_count: ((data >> 17) & 0xFF) as u8,
        modifier: ((data >> 9) & 0xFF) as u8,
        block: ((data >> 8) & 0x1) != 0,
        tick_count: (data & 0xFF) as u8,
    }
}

/// Reading every field back out of a packed value returns the scalar
/// that was put in: the bit ranges are disjoint and wide enough.
proof fn lemma_pack_bits_roundtrip(bt: u8, of: u8, fl: bool, id: u32, hc: u8, md: u8, bl: bool, tc: u8)
    by (bit_vector)
    ensures
        (pack_bits(bt, of, fl, id, hc, md, bl, tc) >> 66) as u8 == bt,
        ((pack_bits(bt, of, fl, id, hc, md, bl, tc) >> 58) & 0xFF) as u8 == of,
        (((pack_bits(bt, of, fl, id, hc, md, bl, tc) >> 57) & 0x1) != 0) == fl,
        ((pack_bits(bt, of, fl, id, hc, md, bl, tc) >> 25) & 0xFFFF_FFFF) as u32 == id,
        ((pack_bits(bt, of, fl, id, hc, md, bl, tc) >> 17) & 0xFF) as u8 == hc,
        ((pack_bits(bt, of, fl, id, hc, md, bl, tc) >> 9) & 0xFF) as u8 == md,
        (((pack_bits(bt, of, fl, id, hc, md, bl, tc) >> 8) & 0x1) != 0) == bl,
        (pack_bits(bt, of, fl, id, hc, md, bl, tc) & 0xFF) as u8 == tc,
{
}

/// The codec is a bijection on valid field combinations: unpacking a
/// packed payload returns exactly the fields that were packed, for every
/// combination of field values.
pub proof fn lemma_codec_bijection(d: UserData)
    ensures
        spec_unpack(spec_pack(d)) == d,
{
    lemma_pack_bits_roundtrip(
        d.body_type,
        d.object_function,
        d.flag,
        d.raw_id,
        d.hit_count,
        d.modifier,
        d.block,
        d.tick_count,
    );
}

impl UserData {
    /// Pack all fields into a single value.
    pub fn pack(self) -> (r: u128)
        ensures
            r == spec_pack(self),
    {
        let fl: u128 = if self.flag {
            1
        } else {
            0
        };
        let bl: u128 = if self.block {
            1
        } else {
            0
        };
        let r = ((self.body_type as u128) << BODY_TYPE_SHIFT) | ((self.object_function as u128)
            << OBJECT_FUNCTION_SHIFT) | (fl << FLAG_SHIFT) | ((self.raw_id as u128) << RAW_ID_SHIFT)
            | ((self.hit_count as u128) << HIT_COUNT_SHIFT) | ((self.modifier as u128)
            << MODIFIER_SHIFT) | (bl << BLOCK_SHIFT) | ((self.tick_count as u128)
            << TICK_COUNT_SHIFT);
        proof {
            let bt = self.body_type;
            let of = self.object_function;
            let id = self.raw_id;
            let hc = self.hit_count;
            let md = self.modifier;
            let tc = self.tick_count;
            assert(((bt as u128) << 66u32) | ((of as u128) << 58u32) | (fl << 57u32) | ((
            id as u128) << 25u32) | ((hc as u128) << 17u32) | ((md as u128) << 9u32) | (bl
                << 8u32) | ((tc as u128) << 0u32) == ((bt as u128) << 66) | ((of as u128) << 58) | (
            fl << 57) | ((id as u128) << 25) | ((hc as u128) << 17) | ((md as u128) << 9) | (bl
                << 8) | (tc as u128)) by (bit_vector);
        }
        r
    }

    /// Unpack a packed payload into its constituent fields.
    pub fn unpack(data: u128) -> (r: UserData)
        ensures
            r == spec_unpack(data),
    {
        let tick_count = (data & 0xFF) as u8;
        let block = ((data >> BLOCK_SHIFT) & 0x1) != 0;
        let modifier = ((data >> MODIFIER_SHIFT) & 0xFF) as u8;
        let hit_count = ((data >> HIT_COUNT_SHIFT) & 0xFF) as u8;
        let raw_id = ((data >> RAW_ID_SHIFT) & 0xFFFF_FFFF) as u32;
        let flag = ((data >> FLAG_SHIFT) & 0x1) != 0;
        let object_function = ((data >> OBJECT_FUNCTION_SHIFT) & 0xFF) as u8;
        let body_type = (data >> BODY_TYPE_SHIFT) as u8;
        UserData { body_type, object_function, flag, raw_id, hit_count, modifier, block, tick_count }
    }
}

/// Extract body_type (top 8 bits) from a packed payload.
pub fn get_body_type(data: u128) -> (r: u8)
    ensures
        r == spec_unpack(data).body_type,
{
    (data >> BODY_TYPE_SHIFT) as u8
}

/// Extract object_function from a packed payload.
pub fn get_object_function(data: u128) -> (r: u8)
    ensures
        r == spec_unpack(data).object_function,
{
    ((data >> OBJECT_FUNCTION_SHIFT) & 0xFF) as u8
}

/// Extract the flag bit from a packed payload.
pub fn get_flag(data: u128) -> (r: bool)
    ensures
        r == spec_unpack(data).flag,
{
    ((data >> FLAG_SHIFT) & 0x1) != 0
}

/// Replacing one bit range leaves every read of the other ranges alone:
/// stated over the raw update expression for the flag bit.
proof fn lemma_set_flag_bits(data: u128, fb: u128)
    by (bit_vector)
    requires
        fb == 0 || fb == 1,
    ensures
        ((((data & !(1u128 << 57)) | (fb << 57)) >> 66) as u8) == (data >> 66) as u8,
        ((((data & !(1u128 << 57)) | (fb << 57)) >> 58) & 0xFF) as u8 == ((data >> 58) & 0xFF) as u8,
        ((((data & !(1u128 << 57)) | (fb << 57)) >> 57) & 0x1) == fb,
        ((((data & !(1u128 << 57)) | (fb << 57)) >> 25) & 0xFFFF_FFFF) as u32 == ((data >> 25)
            & 0xFFFF_FFFF) as u32,
        ((((data & !(1u128 << 57)) | (fb << 57)) >> 17) & 0xFF) as u8 == ((data >> 17) & 0xFF) as u8,
        ((((data & !(1u128 << 57)) | (fb << 57)) >> 9) & 0xFF) as u8 == ((data >> 9) & 0xFF) as u8,
        ((((data & !(1u128 << 57)) | (fb << 57)) >> 8) & 0x1) == ((data >> 8) & 0x1),
        (((data & !(1u128 << 57)) | (fb << 57)) & 0xFF) as u8 == (data & 0xFF) as u8,
{
}

/// Set the flag bit in an existing packed payload; all other fields keep
/// their values.
pub fn set_flag(data: u128, flag: bool) -> (r: u128)
    ensures
        r == (data & !(1u128 << 57)) | ((if flag {
            1u128
        } else {
            0u128
        }) << 57),
        spec_unpack(r) == (UserData { flag, ..spec_unpack(data) }),
{
    let fb: u128 = if flag {
        1
    } else {
        0
    };
    let r = (data & !(1u128 << FLAG_SHIFT)) | (fb << FLAG_SHIFT);
    proof {
        lemma_set_flag_bits(data, fb);
        assert(fb == 1 <==> flag);
        assert((r >> 57) & 0x1 == fb);
    }
    r
}

/// Extract the raw 32-bit entity id from a packed payload.
pub fn get_raw_id(data: u128) -> (r: u32)
    ensures
        r == spec_unpack(data).raw_id,
{
    ((data >> RAW_ID_SHIFT) & 0xFFFF_FFFF) as u32
}

/// Pack a bare 32-bit entity id into an otherwise-zero payload.
pub fn pack_raw_id(raw_id: u32) -> (r: u128)
    ensures
        r == (raw_id as u128) << 25,
        spec_unpack(r).raw_id == raw_id,
{
    proof {
        assert(((((raw_id as u128) << 25) >> 25) & 0xFFFF_FFFF) as u32 == raw_id) by (bit_vector);
        assert(((raw_id as u128) & 0xFFFF_FFFF) << 25 == (raw_id as u128) << 25) by (bit_vector);
    }
    (u128::from(raw_id) & 0xFFFF_FFFF) << RAW_ID_SHIFT
}

/// Extract hit_count from a packed payload.
pub fn get_hit_count(data: u128) -> (r: u8)
    ensures
        r == spec_unpack(data).hit_count,
{
    ((data >> HIT_COUNT_SHIFT) & 0xFF) as u8
}

/// Extract modifier from a packed payload.
pub fn get_modifier(data: u128) -> (r: u8)
    ensures
        r == spec_unpack(data).modifier,
{
    ((data >> MODIFIER_SHIFT) & 0xFF) as u8
}

/// Extract the block bit from a packed payload.
pub fn get_block(data: u128) -> (r: bool)
    ensures
        r == spec_unpack(data).block,
{
    ((data >> BLOCK_SHIFT) & 0x1) != 0
}

/// Replacing the block bit leaves every read of the other ranges alone.
proof fn lemma_set_block_bits(data: u128, bb: u128)
    by (bit_vector)
    requires
        bb == 0 || bb == 1,
    ensures
        ((((data & !(1u128 << 8)) | (bb << 8)) >> 66) as u8) == (data >> 66) as u8,
        ((((data & !(1u128 << 8)) | (bb << 8)) >> 58) & 0xFF) as u8 == ((data >> 58) & 0xFF) as u8,
        ((((data & !(1u128 << 8)) | (bb << 8)) >> 57) & 0x1) == ((data >> 57) & 0x1),
        ((((data & !(1u128 << 8)) | (bb << 8)) >> 25) & 0xFFFF_FFFF) as u32 == ((data >> 25)
            & 0xFFFF_FFFF) as u32,
        ((((data & !(1u128 << 8)) | (bb << 8)) >> 17) & 0xFF) as u8 == ((data >> 17) & 0xFF) as u8,
        ((((data & !(1u128 << 8)) | (bb << 8)) >> 9) & 0xFF) as u8 == ((data >> 9) & 0xFF) as u8,
        ((((data & !(1u128 << 8)) | (bb << 8)) >> 8) & 0x1) == bb,
        (((data & !(1u128 << 8)) | (bb << 8)) & 0xFF) as u8 == (data & 0xFF) as u8,
{
}

/// Set the block bit in an existing packed payload; all other fields keep
/// their values.
pub fn set_block(data: u128, block: bool) -> (r: u128)
    ensures
        r == (data & !(1u128 << 8)) | ((if block {
            1u128
        } else {
            0u128
        }) << 8),
        spec_unpack(r) == (UserData { block, ..spec_unpack(data) }),
{
    let bb: u128 = if block {
        1
    } else {
        0
    };
    let r = (data & !(1u128 << BLOCK_SHIFT)) | (bb << BLOCK_SHIFT);
    proof {
        lemma_set_block_bits(data, bb);
        assert(bb == 1 <==> block);
        assert((r >> 8) & 0x1 == bb);
    }
    r
}

/// Extract tick_count (the lowest 8 bits) from a packed payload.
pub fn get_tick_count(data: u128) -> (r: u8)
    ensures
        r == spec_unpack(data).tick_count,
{
    (data & 0xFF) as u8
}

/// Replacing the tick_count range leaves every read of the other ranges
/// alone.
proof fn lemma_set_tick_bits(data: u128, tc: u8)
    by (bit_vector)
    ensures
        ((((data & !0xFF) | (tc as u128)) >> 66) as u8) == (data >> 66) as u8,
        ((((data & !0xFF) | (tc as u128)) >> 58) & 0xFF) as u8 == ((data >> 58) & 0xFF) as u8,
        ((((data & !0xFF) | (tc as u128)) >> 57) & 0x1) == ((data >> 57) & 0x1),
        ((((data & !0xFF) | (tc as u128)) >> 25) & 0xFFFF_FFFF) as u32 == ((data >> 25)
            & 0xFFFF_FFFF) as u32,
        ((((data & !0xFF) | (tc as u128)) >> 17) & 0xFF) as u8 == ((data >> 17) & 0xFF) as u8,
        ((((data & !0xFF) | (tc as u128)) >> 9) & 0xFF) as u8 == ((data >> 9) & 0xFF) as u8,
        ((((data & !0xFF) | (tc as u128)) >> 8) & 0x1) == ((data >> 8) & 0x1),
        (((data & !0xFF) | (tc as u128)) & 0xFF) as u8 == tc,
{
}

/// Replace the tick_count in an existing packed payload; all other fields
/// keep their values.
pub fn set_tick_count(data: u128, tick: u8) -> (r: u128)
    ensures
        r == (data & !0xFFu128) | (tick as u128),
        spec_unpack(r) == (UserData { tick_count: tick, ..spec_unpack(data) }),
{
    let r = (data & !0xFF) | (tick as u128);
    proof {
        lemma_set_tick_bits(data, tick);
    }
    r
}

/// Replacing the hit_count range leaves every read of the other ranges
/// alone.
proof fn lemma_set_hit_bits(data: u128, hc: u8)
    by (bit_vector)
    ensures
        ((((data & !(0xFFu128 << 17)) | ((hc as u128) << 17)) >> 66) as u8) == (data >> 66) as u8,
        ((((data & !(0xFFu128 << 17)) | ((hc as u128) << 17)) >> 58) & 0xFF) as u8 == ((data >> 58)
            & 0xFF) as u8,
        ((((data & !(0xFFu128 << 17)) | ((hc as u128) << 17)) >> 57) & 0x1) == ((data >> 57) & 0x1),
        ((((data & !(0xFFu128 << 17)) | ((hc as u128) << 17)) >> 25) & 0xFFFF_FFFF) as u32 == ((data
            >> 25) & 0xFFFF_FFFF) as u32,
        ((((data & !(0xFFu128 << 17)) | ((hc as u128) << 17)) >> 17) & 0xFF) as u8 == hc,
        ((((data & !(0xFFu128 << 17)) | ((hc as u128) << 17)) >> 9) & 0xFF) as u8 == ((data >> 9)
            & 0xFF) as u8,
        ((((data & !(0xFFu128 << 17)) | ((hc as u128) << 17)) >> 8) & 0x1) == ((data >> 8) & 0x1),
        (((data & !(0xFFu128 << 17)) | ((hc as u128) << 17)) & 0xFF) as u8 == (data & 0xFF) as u8,
{
}

/// Replace the hit_count in an existing packed payload; all other fields
/// keep their values.
pub fn set_hit_count(data: u128, hit_count: u8) -> (r: u128)
    ensures
        r == (data & !(0xFFu128 << 17)) | ((hit_count as u128) << 17),
        spec_unpack(r) == (UserData { hit_count, ..spec_unpack(data) }),
{
    let r = (data & !(0xFFu128 << HIT_COUNT_SHIFT)) | ((hit_count as u128) << HIT_COUNT_SHIFT);
    proof {
        lemma_set_hit_bits(data, hit_count);
    }
    r
}

} // verus!
