//! Framing bytes sent ahead of each transaction, and the masked register update.
use vstd::prelude::*;

verus! {

/// Direction bit of a framing byte: set for a write, clear for a read.
pub const WRITE_FLAG: u8 = 0x80;

/// Mask of the register address within a framing byte.
pub const ADDR_MASK: u8 = 0x7F;

/// Op-code that starts a FIFO buffer read.
pub const FIFO_READ: u8 = 0x00;

/// Op-code that starts a FIFO buffer write.
pub const FIFO_WRITE: u8 = 0x80;

/// The framing byte that reads register `reg`: its address with the direction bit clear.
pub open spec fn read_prefix_spec(reg: u8) -> u8 {
    reg & ADDR_MASK
}

/// The framing byte that writes register `reg`: its address with the direction bit set.
pub open spec fn write_prefix_spec(reg: u8) -> u8 {
    reg | WRITE_FLAG
}

/// The value a masked update writes: bits of `value` inside `mask`, bits of
/// `existing` outside it.
pub open spec fn masked_spec(existing: u8, mask: u8, value: u8) -> u8 {
    (existing & !mask) | (value & mask)
}

pub fn read_prefix(reg: u8) -> (r: u8)
    ensures
        r == read_prefix_spec(reg),
{
    reg & ADDR_MASK
}

pub fn write_prefix(reg: u8) -> (r: u8)
    ensures
        r == write_prefix_spec(reg),
{
    reg | WRITE_FLAG
}

pub fn masked(existing: u8, mask: u8, value: u8) -> (r: u8)
    ensures
        r == masked_spec(existing, mask, value),
{
    (existing & !mask) | (value & mask)
}

/// Bit `i` of a masked update comes from `value` where `mask` has it set, and from
/// `existing` where it does not.
pub proof fn lemma_masked_bits(existing: u8, mask: u8, value: u8, i: u8)
    requires
        i < 8,
    ensures
        (mask >> i) & 1 == 1 ==> (masked_spec(existing, mask, value) >> i) & 1 == (value >> i) & 1,
        (mask >> i) & 1 == 0 ==> (masked_spec(existing, mask, value) >> i) & 1 == (existing >> i)
            & 1,
{
    assert((mask >> i) & 1 == 1 ==> (((existing & !mask) | (value & mask)) >> i) & 1 == (value
        >> i) & 1) by (bit_vector)
        requires
            i < 8,
    ;
    assert((mask >> i) & 1 == 0 ==> (((existing & !mask) | (value & mask)) >> i) & 1 == (existing
        >> i) & 1) by (bit_vector)
        requires
            i < 8,
    ;
}

/// A masked update with a full mask writes the new value, with an empty mask the
/// existing one, and updating again with the same mask and value changes nothing.
pub proof fn lemma_masked_extremes(existing: u8, mask: u8, value: u8)
    ensures
        masked_spec(existing, 0xFF, value) == value,
        masked_spec(existing, 0, value) == existing,
        masked_spec(masked_spec(existing, mask, value), mask, value) == masked_spec(
            existing,
            mask,
            value,
        ),
{
    assert((existing & !0xFFu8) | (value & 0xFFu8) == value) by (bit_vector);
    assert((existing & !0u8) | (value & 0u8) == existing) by (bit_vector);
    assert((((existing & !mask) | (value & mask)) & !mask) | (value & mask) == (existing & !mask)
        | (value & mask)) by (bit_vector);
}

/// The direction bit of a caller's address never reaches the framing byte as an
/// address bit: `reg` and `reg` with its top bit set frame the same read and the
/// same write, a read frame has the direction bit clear, a write frame has it set,
/// and both carry the low seven bits of the address.
pub proof fn lemma_prefix_masks_direction(reg: u8)
    ensures
        read_prefix_spec(reg) == read_prefix_spec(reg | 0x80),
        write_prefix_spec(reg) == write_prefix_spec(reg | 0x80),
        read_prefix_spec(reg) & WRITE_FLAG == 0,
        write_prefix_spec(reg) & WRITE_FLAG == WRITE_FLAG,
        read_prefix_spec(reg) & ADDR_MASK == reg & ADDR_MASK,
        write_prefix_spec(reg) & ADDR_MASK == reg & ADDR_MASK,
        reg < 0x80 ==> read_prefix_spec(reg) == reg,
        reg < 0x80 ==> write_prefix_spec(reg) == reg + 0x80,
{
    assert(reg & 0x7F == (reg | 0x80) & 0x7F) by (bit_vector);
    assert(reg | 0x80 == (reg | 0x80) | 0x80) by (bit_vector);
    assert((reg & 0x7F) & 0x80 == 0) by (bit_vector);
    assert((reg | 0x80) & 0x80 == 0x80) by (bit_vector);
    assert((reg & 0x7F) & 0x7F == reg & 0x7F) by (bit_vector);
    assert((reg | 0x80) & 0x7F == reg & 0x7F) by (bit_vector);
    assert(reg < 0x80 ==> reg & 0x7F == reg) by (bit_vector);
    assert(reg < 0x80 ==> reg | 0x80 == reg + 0x80) by (bit_vector);
}

} // verus!
