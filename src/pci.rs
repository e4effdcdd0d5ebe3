use vstd::prelude::*;

verus! {

/// The configuration-space address that selects register `offset` (its dword)
/// of function `func` of device `slot` on `bus`, with the enable bit set.
pub open spec fn config_address(bus: u8, slot: u8, func: u8, offset: u8) -> u32 {
    ((bus as u32) << 16) | ((slot as u32) << 11) | ((func as u32) << 8) | ((offset as u32) & 0xFC)
        | 0x8000_0000u32
}

/// The address word to write before reading a configuration word.
pub fn config_address_word(bus: u8, slot: u8, func: u8, offset: u8) -> (r: u32)
    ensures
        r == config_address(bus, slot, func, offset),
{
    ((bus as u32) << 16) | ((slot as u32) << 11) | ((func as u32) << 8) | ((offset as u32) & 0xFC)
        | 0x8000_0000u32
}

/// The 16-bit configuration word at `offset` inside the dword `data` read
/// from configuration space: the high half when bit 1 of the offset is set.
pub fn config_word(data: u32, offset: u8) -> (r: u16)
    ensures
        r == if offset & 2 == 0 {
            data % 65536
        } else {
            data / 65536
        },
{
    let o = offset;
    assert(o & 2 == 0 || o & 2 == 2) by (bit_vector);
    let shift = ((offset & 2) as u32) * 8;
    let w = (data >> shift) & 0xFFFF;
    assert(shift == 0 ==> w == data % 65536) by (bit_vector)
        requires
            w == (data >> shift) & 0xFFFF,
    ;
    assert(shift == 16 ==> w == data / 65536) by (bit_vector)
        requires
            w == (data >> shift) & 0xFFFF,
    ;
    assert(w <= 0xFFFF) by (bit_vector)
        requires
            w == (data >> shift) & 0xFFFF,
    ;
    w as u16
}

} // verus!
