use vstd::prelude::*;

verus! {

/// Command port of the master PIC.
pub const PIC1_COMMAND: u16 = 0x20;

/// Data port of the master PIC.
pub const PIC1_DATA: u16 = 0x21;

/// Command port of the slave PIC.
pub const PIC2_COMMAND: u16 = 0xA0;

/// Data port of the slave PIC.
pub const PIC2_DATA: u16 = 0xA1;

/// End-of-interrupt command byte.
pub const PIC_EOI: u8 = 0x20;

/// The data port that holds the mask of IRQ line `irq`, and the line's bit in
/// it: lines 0-7 are on the master, 8-15 on the slave.
pub fn mask_location(irq: u8) -> (r: (u16, u8))
    ensures
        irq < 8 ==> r == (PIC1_DATA, irq),
        irq >= 8 ==> r == (PIC2_DATA, (irq - 8) as u8),
{
    if irq < 8 {
        (PIC1_DATA, irq)
    } else {
        (PIC2_DATA, irq - 8)
    }
}

/// The mask byte with bit `bit` set (the line masked) or cleared.
pub fn with_mask_bit(value: u8, bit: u8, masked: bool) -> (r: u8)
    requires
        bit < 8,
    ensures
        forall|k: u8| k < 8 ==> #[trigger] ((r >> k) & 1) == if k == bit {
            if masked {
                1u8
            } else {
                0u8
            }
        } else {
            (value >> k) & 1
        },
{
    let one: u8 = 1;
    let m: u8 = one << bit;
    let r = if masked {
        value | m
    } else {
        value & !m
    };
    assert forall|k: u8| k < 8 implies #[trigger] ((r >> k) & 1) == if k == bit {
        if masked {
            1u8
        } else {
            0u8
        }
    } else {
        (value >> k) & 1
    } by {
        if masked {
            assert(((value | (1u8 << bit)) >> k) & 1 == if k == bit { 1u8 } else { (value >> k) & 1 })
                by (bit_vector)
                requires
                    k < 8,
                    bit < 8,
            ;
        } else {
            assert(((value & !(1u8 << bit)) >> k) & 1 == if k == bit { 0u8 } else { (value >> k) & 1 })
                by (bit_vector)
                requires
                    k < 8,
                    bit < 8,
            ;
        }
    }
    r
}

/// The command ports that must receive end-of-interrupt for vector `irq`:
/// the slave's too when the vector is one of the slave's (0x28 and above),
/// then always the master's.
pub fn eoi_ports(irq: u8) -> (r: (Option<u16>, u16))
    ensures
        r.0 == (if irq >= 0x28 {
            Some(PIC2_COMMAND)
        } else {
            None::<u16>
        }),
        r.1 == PIC1_COMMAND,
{
    if irq >= 0x28 {
        (Some(PIC2_COMMAND), PIC1_COMMAND)
    } else {
        (None, PIC1_COMMAND)
    }
}

} // verus!
