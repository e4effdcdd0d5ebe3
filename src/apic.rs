use crate::rsdt::MADT;
use vstd::prelude::*;

verus! {

/// A write of `value` to register `reg` of an interrupt controller.
#[derive(Debug, Clone, Copy, PartialEq, Eq, Structural)]
pub struct RegisterWrite {
    pub reg: u32,
    pub value: u32,
}

/// Local APIC end-of-interrupt register.
pub const LAPIC_EOI: u32 = 0xB0;

/// Local APIC task-priority register.
pub const LAPIC_TPR: u32 = 0x80;

/// First I/O APIC redirection-table register.
pub const IOAPIC_REDIRECTION_BASE: u32 = 0x10;

/// Largest redirection index whose two registers have 8-bit addresses.
pub const MAX_REDIRECTION_INDEX: u32 = 0x77;

/// Vector the keyboard interrupt is delivered on.
pub const KEYBOARD_VECTOR: u8 = 0x31;

/// Vector the PIT interrupt is delivered on.
pub const PIT_VECTOR: u8 = 0x30;

/// CPUID leaf 1 reports a local APIC: bit 9 of `edx`.
pub fn has_local_apic(edx: u32) -> (r: bool)
    ensures
        r == ((edx >> 9) & 1 == 1),
{
    let r = (edx & 0x200) != 0;
    assert(((edx & 0x200) != 0) == ((edx >> 9) & 1 == 1)) by (bit_vector);
    r
}

/// The local APIC id that CPUID leaf 1 reports: the top byte of `ebx`.
pub fn local_apic_id(ebx: u32) -> (r: u8)
    ensures
        r == ebx >> 24,
{
    let t = (ebx >> 24) & 0xff;
    assert(t == ebx >> 24 && t <= 0xff) by (bit_vector)
        requires
            t == (ebx >> 24) & 0xff,
    ;
    t as u8
}

/// The two register writes that program redirection entry `redirection_index`
/// of the I/O APIC: the low word carries the vector (bits 0-7), the delivery
/// mode (bits 8-11), logical destination (bit 11 ored in), inverted polarity
/// (bit 13), level trigger (bit 15) and mask (bit 16); the high word carries
/// the destination in its top byte.
pub fn setup_interrupt_redirection(
    redirection_index: u32,
    interrupt_vector: u8,
    delivery_mode: u8,
    logical_destination: bool,
    invert_polarity: bool,
    level_trigger: bool,
    mask: bool,
    destination: u8,
) -> (r: (RegisterWrite, RegisterWrite))
    requires
        redirection_index <= MAX_REDIRECTION_INDEX,
    ensures
        r.0.reg == IOAPIC_REDIRECTION_BASE + 2 * redirection_index,
        r.1.reg == IOAPIC_REDIRECTION_BASE + 2 * redirection_index + 1,
        r.0.value & 0xff == interrupt_vector,
        (r.0.value >> 8) & 0x7 == delivery_mode & 0x7,
        ((r.0.value >> 11) & 1 == 1) == (logical_destination || delivery_mode & 0x8 != 0),
        ((r.0.value >> 13) & 1 == 1) == invert_polarity,
        ((r.0.value >> 15) & 1 == 1) == level_trigger,
        ((r.0.value >> 16) & 1 == 1) == mask,
        r.0.value & 0xFFFE_5000 == 0,
        r.1.value >> 24 == destination,
        r.1.value & 0x00FF_FFFF == 0,
{
    let v = interrupt_vector as u32;
    let m = (delivery_mode & 0x0F) as u32;
    let lg: u32 = if logical_destination {
        1
    } else {
        0
    };
    let iv: u32 = if invert_polarity {
        1
    } else {
        0
    };
    let lv: u32 = if level_trigger {
        1
    } else {
        0
    };
    let mk: u32 = if mask {
        1
    } else {
        0
    };
    let low = v | (m << 8) | (lg << 11) | (iv << 13) | (lv << 15) | (mk << 16);
    let d = destination as u32;
    let high = d << 24;
    let dm = delivery_mode;
    assert(m <= 0xf && (m & 0x7) == (dm & 0x7) as u32 && ((m & 0x8 != 0) == (dm & 0x8 != 0)))
        by (bit_vector)
        requires
            m == (dm & 0x0F) as u32,
    ;
    assert(low & 0xff == v && (low >> 8) & 0x7 == m & 0x7 && ((low >> 11) & 1 == 1) == (lg == 1 || m & 0x8
        != 0) && ((low >> 13) & 1 == 1) == (iv == 1) && ((low >> 15) & 1 == 1) == (lv == 1) && ((low >> 16)
        & 1 == 1) == (mk == 1) && low & 0xFFFE_5000 == 0) by (bit_vector)
        requires
            v <= 0xff,
            m <= 0xf,
            lg <= 1,
            iv <= 1,
            lv <= 1,
            mk <= 1,
            low == v | (m << 8) | (lg << 11) | (iv << 13) | (lv << 15) | (mk << 16),
    ;
    assert(high >> 24 == d && high & 0x00FF_FFFF == 0) by (bit_vector)
        requires
            d <= 0xff,
            high == d << 24,
    ;
    let reg = IOAPIC_REDIRECTION_BASE + 2 * redirection_index;
    (RegisterWrite { reg, value: low }, RegisterWrite { reg: reg + 1, value: high })
}

/// The write that signals end of interrupt to the local APIC.
#[allow(non_snake_case)]
pub fn send_EOI() -> (r: RegisterWrite)
    ensures
        r == (RegisterWrite { reg: LAPIC_EOI, value: 0 }),
{
    RegisterWrite { reg: LAPIC_EOI, value: 0 }
}

/// The redirection entry for ISA interrupt `irq` on `vector`: to the global
/// system interrupt an override of the MADT names for it, else to `irq`
/// itself. `None` when that entry lies beyond the register window.
fn redirect_isa_irq(madt: &MADT, irq: u8, vector: u8) -> (r: Option<(RegisterWrite, RegisterWrite)>)
    ensures
        ({
            let index: int = match madt_override_of(madt, irq) {
                Some(g) => g as int,
                None => irq as int,
            };
            match r {
                Some(w) => index <= MAX_REDIRECTION_INDEX && w.0.reg == IOAPIC_REDIRECTION_BASE + 2 * index
                    && w.0.value == vector as u32 && w.1.reg == w.0.reg + 1 && w.1.value == 0,
                None => index > MAX_REDIRECTION_INDEX,
            }
        }),
{
    let index = match madt.find_override(irq) {
        Some(g) => g,
        None => irq as u32,
    };
    if index > MAX_REDIRECTION_INDEX {
        return None;
    }
    let w = setup_interrupt_redirection(index, vector, 0x00, false, false, false, false, 0);
    assert(0u8 & 0x7 == 0 && 0u8 & 0x8 == 0 && (0u8 as u32) == 0) by (bit_vector);
    let vv = vector as u32;
    let lo = w.0.value;
    assert(lo == vv) by (bit_vector)
        requires
            lo & 0xff == vv,
            vv <= 0xff,
            (lo >> 8) & 0x7 == 0,
            (lo >> 11) & 1 != 1,
            (lo >> 13) & 1 != 1,
            (lo >> 15) & 1 != 1,
            (lo >> 16) & 1 != 1,
            lo & 0xFFFE_5000 == 0,
    ;
    let hi = w.1.value;
    assert(hi == 0) by (bit_vector)
        requires
            hi >> 24 == 0,
            hi & 0x00FF_FFFF == 0,
    ;
    Some(w)
}

/// The global system interrupt the first override for `irq` names, if any.
pub open spec fn madt_override_of(madt: &MADT, irq: u8) -> Option<u32> {
    let ovs = madt.overrides();
    if exists|i: int| 0 <= i < ovs.len() && (#[trigger] ovs[i]).irq == irq {
        let i = choose|i: int|
            0 <= i < ovs.len() && (#[trigger] ovs[i]).irq == irq && forall|j: int|
                0 <= j < i ==> ovs[j].irq != irq;
        Some(ovs[i].GSI)
    } else {
        None
    }
}

/// Routes the keyboard (ISA interrupt 1) to `KEYBOARD_VECTOR`.
pub fn setup_keyboard_interrupt(madt: &MADT) -> (r: Option<(RegisterWrite, RegisterWrite)>)
    ensures
        ({
            let index: int = match madt_override_of(madt, 1) {
                Some(g) => g as int,
                None => 1,
            };
            match r {
                Some(w) => index <= MAX_REDIRECTION_INDEX && w.0.reg == IOAPIC_REDIRECTION_BASE + 2 * index
                    && w.0.value == KEYBOARD_VECTOR as u32 && w.1.reg == w.0.reg + 1 && w.1.value == 0,
                None => index > MAX_REDIRECTION_INDEX,
            }
        }),
{
    redirect_isa_irq(madt, 1, KEYBOARD_VECTOR)
}

/// Routes the PIT (ISA interrupt 0) to `PIT_VECTOR`.
#[allow(non_snake_case)]
pub fn setup_PIT_interrupt(madt: &MADT) -> (r: Option<(RegisterWrite, RegisterWrite)>)
    ensures
        ({
            let index: int = match madt_override_of(madt, 0) {
                Some(g) => g as int,
                None => 0,
            };
            match r {
                Some(w) => index <= MAX_REDIRECTION_INDEX && w.0.reg == IOAPIC_REDIRECTION_BASE + 2 * index
                    && w.0.value == PIT_VECTOR as u32 && w.1.reg == w.0.reg + 1 && w.1.value == 0,
                None => index > MAX_REDIRECTION_INDEX,
            }
        }),
{
    redirect_isa_irq(madt, 0, PIT_VECTOR)
}

/// The write that sets the task-priority class to `priority` (its low four
/// bits) and keeps the sub-class bits of the current register value.
pub fn set_task_priority(priority: u8, current: u32) -> (r: RegisterWrite)
    ensures
        r.reg == LAPIC_TPR,
        r.value >> 4 == priority & 0x0f,
        r.value & 0x0f == current & 0x0f,
{
    let previous_value = current & 0x0f;
    let p = (priority & 0x0f) as u32;
    let new_value = (p << 4) | previous_value;
    let pr = priority;
    assert(previous_value <= 0xf) by (bit_vector)
        requires
            previous_value == current & 0x0f,
    ;
    assert(p <= 0xf) by (bit_vector)
        requires
            p == (pr & 0x0f) as u32,
    ;
    assert(new_value >> 4 == p && new_value & 0x0f == previous_value) by (bit_vector)
        requires
            p <= 0xf,
            previous_value <= 0xf,
            new_value == (p << 4) | previous_value,
    ;
    RegisterWrite { reg: LAPIC_TPR, value: new_value }
}

/// Bit of the APIC base MSR that marks the bootstrap processor.
pub const APIC_BASE_BSP: u64 = 0x100;

/// Bit of the APIC base MSR that enables the local APIC.
pub const APIC_BASE_ENABLE: u64 = 0x800;

/// The physical base address held in the APIC base MSR: its value with the
/// low twelve bits cleared.
#[allow(non_snake_case)]
pub fn get_APIC_BASE(msr: u64) -> (r: u64)
    ensures
        r == msr & 0xFFFF_FFFF_FFFF_F000,
        r % 4096 == 0,
        msr - r < 4096,
{
    let r = msr & 0xFFFF_FFFF_FFFF_F000;
    assert(r % 4096 == 0 && r <= msr && msr - r < 4096) by (bit_vector)
        requires
            r == msr & 0xFFFF_FFFF_FFFF_F000,
    ;
    r
}

/// The APIC base MSR marks this processor as the bootstrap processor.
pub fn is_bsp(msr: u64) -> (r: bool)
    ensures
        r == ((msr >> 8) & 1 == 1),
{
    let r = (msr & APIC_BASE_BSP) != 0;
    assert(((msr & 0x100) != 0) == ((msr >> 8) & 1 == 1)) by (bit_vector);
    r
}

/// The APIC base MSR value that places the local APIC at `phys_addr`, enables
/// it, and marks the bootstrap processor when `is_BSP` holds.
#[allow(non_snake_case)]
pub fn set_APIC_BASE(phys_addr: u64, is_BSP: bool) -> (r: u64)
    ensures
        r == if is_BSP {
            phys_addr | APIC_BASE_ENABLE | APIC_BASE_BSP
        } else {
            phys_addr | APIC_BASE_ENABLE
        },
{
    let mut value = phys_addr | APIC_BASE_ENABLE;
    if is_BSP {
        value = value | APIC_BASE_BSP;
    }
    value
}

/// The version of the I/O APIC, from its version register.
pub fn io_apic_version(register: u32) -> (r: u8)
    ensures
        r == register % 256,
{
    let v = register & 0xff;
    assert(v == register % 256) by (bit_vector)
        requires
            v == register & 0xff,
    ;
    v as u8
}

/// The APIC timer ticks that elapsed while its count ran down from
/// `0xFFFF_FFFF` to `current_count`.
pub fn ticks_elapsed(current_count: u32) -> (r: u32)
    ensures
        r == 0xFFFF_FFFFu32 - current_count,
{
    0xFFFF_FFFFu32 - current_count
}

} // verus!
