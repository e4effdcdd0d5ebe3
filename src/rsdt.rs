use crate::vfs::push_char;
use vstd::prelude::*;

verus! {

/// Size of the root system description pointer.
pub const RSDP_SIZE: usize = 20;

/// Size of the header every system description table starts with.
pub const ACPI_HEADER_SIZE: usize = 36;

/// Offset of the first entry of the MADT: its header, then the local APIC
/// address and flags.
pub const MADT_ENTRIES_OFFSET: usize = 44;

/// MADT entry type of an I/O APIC.
pub const MADT_IO_APIC: u8 = 1;

/// MADT entry type of an interrupt source override.
pub const MADT_INTERRUPT_OVERRIDE: u8 = 2;

/// The little-endian 16-bit value at `off`.
pub open spec fn le_u16(s: Seq<u8>, off: int) -> int {
    s[off] + s[off + 1] * 256
}

/// The little-endian 32-bit value at `off`.
pub open spec fn le_u32(s: Seq<u8>, off: int) -> int {
    s[off] + s[off + 1] * 256 + s[off + 2] * 65536 + s[off + 3] * 16777216
}

fn read_u16_le(s: &[u8], off: usize) -> (r: u16)
    requires
        off + 2 <= s@.len(),
    ensures
        r == le_u16(s@, off as int),
{
    s[off] as u16 + (s[off + 1] as u16) * 256
}

fn read_u32_le(s: &[u8], off: usize) -> (r: u32)
    requires
        off + 4 <= s@.len(),
    ensures
        r == le_u32(s@, off as int),
{
    s[off] as u32 + (s[off + 1] as u32) * 256 + (s[off + 2] as u32) * 65536 + (s[off + 3] as u32)
        * 16777216
}

/// The root system description pointer (ACPI 1.0 layout).
#[allow(non_camel_case_types)]
#[derive(Debug, Clone, Copy)]
pub struct RSDP_t {
    pub signature: [u8; 8],
    pub checksum: u8,
    pub oem_id: [u8; 6],
    pub revision: u8,
    pub addr: u32,
}

impl RSDP_t {
    /// Reads the structure from exactly `RSDP_SIZE` bytes.
    pub fn from_bytes(b: &[u8]) -> (r: Option<RSDP_t>)
        ensures
            match r {
                Some(p) => {
                    &&& b@.len() == RSDP_SIZE
                    &&& p.signature@ == b@.subrange(0, 8)
                    &&& p.checksum == b@[8]
                    &&& p.oem_id@ == b@.subrange(9, 15)
                    &&& p.revision == b@[15]
                    &&& p.addr == le_u32(b@, 16)
                },
                None => b@.len() != RSDP_SIZE,
            },
    {
        if b.len() != RSDP_SIZE {
            return None;
        }
        let signature = [b[0], b[1], b[2], b[3], b[4], b[5], b[6], b[7]];
        let oem_id = [b[9], b[10], b[11], b[12], b[13], b[14]];
        let r = RSDP_t {
            signature,
            checksum: b[8],
            oem_id,
            revision: b[15],
            addr: read_u32_le(b, 16),
        };
        proof {
            assert(r.signature@ =~= b@.subrange(0, 8));
            assert(r.oem_id@ =~= b@.subrange(9, 15));
        }
        Some(r)
    }

    /// The physical address of the RSDT. Only revision 0 is supported: a later
    /// revision points to an XSDT instead, and gives `None`.
    pub fn get_rsdt_addr(&self) -> (r: Option<u32>)
        ensures
            r == (if self.revision == 0 {
                Some(self.addr)
            } else {
                None::<u32>
            }),
    {
        if self.revision != 0 {
            None
        } else {
            Some(self.addr)
        }
    }
}

/// The header every system description table starts with.
#[derive(Debug, Clone, Copy)]
pub struct ACPISTDHeader {
    pub signature: [u8; 4],
    pub length: u32,
    pub revision: u8,
    pub checksum: u8,
    pub oem_id: [u8; 6],
    pub oem_table_id: [u8; 8],
    pub oem_revision: u32,
    pub creator_id: u32,
    pub creator_revision: u32,
}

impl ACPISTDHeader {
    /// Reads a header from its first `ACPI_HEADER_SIZE` bytes; `None` when
    /// fewer are given.
    pub fn from_bytes(b: &[u8]) -> (r: Option<ACPISTDHeader>)
        ensures
            match r {
                Some(h) => {
                    &&& b@.len() >= ACPI_HEADER_SIZE
                    &&& h.signature@ == b@.subrange(0, 4)
                    &&& h.length == le_u32(b@, 4)
                    &&& h.revision == b@[8]
                    &&& h.checksum == b@[9]
                    &&& h.oem_id@ == b@.subrange(10, 16)
                    &&& h.oem_table_id@ == b@.subrange(16, 24)
                    &&& h.oem_revision == le_u32(b@, 24)
                    &&& h.creator_id == le_u32(b@, 28)
                    &&& h.creator_revision == le_u32(b@, 32)
                },
                None => b@.len() < ACPI_HEADER_SIZE,
            },
    {
        if b.len() < ACPI_HEADER_SIZE {
            return None;
        }
        let h = ACPISTDHeader {
            signature: [b[0], b[1], b[2], b[3]],
            length: read_u32_le(b, 4),
            revision: b[8],
            checksum: b[9],
            oem_id: [b[10], b[11], b[12], b[13], b[14], b[15]],
            oem_table_id: [b[16], b[17], b[18], b[19], b[20], b[21], b[22], b[23]],
            oem_revision: read_u32_le(b, 24),
            creator_id: read_u32_le(b, 28),
            creator_revision: read_u32_le(b, 32),
        };
        proof {
            assert(h.signature@ =~= b@.subrange(0, 4));
            assert(h.oem_id@ =~= b@.subrange(10, 16));
            assert(h.oem_table_id@ =~= b@.subrange(16, 24));
        }
        Some(h)
    }

    pub fn get_signature(&self) -> (r: [u8; 4])
        ensures
            r@ == self.signature@,
    {
        self.signature
    }

    /// The signature, each byte taken as the character of the same code.
    pub fn get_signature_as_str(&self) -> (r: String)
        ensures
            r@ == self.signature@.map_values(|c: u8| c as char),
    {
        let mut s = String::new();
        let mut i: usize = 0;
        while i < 4
            invariant
                i <= 4,
                s@ == self.signature@.subrange(0, i as int).map_values(|c: u8| c as char),
            decreases 4 - i,
        {
            push_char(&mut s, self.signature[i] as char);
            proof {
                assert(s@ =~= self.signature@.subrange(0, i + 1).map_values(|c: u8| c as char));
            }
            i = i + 1;
        }
        proof {
            assert(self.signature@.subrange(0, 4) =~= self.signature@);
        }
        s
    }

    /// The table carries the signature `table_signature`.
    pub fn is_table(&self, table_signature: &[u8]) -> (r: bool)
        ensures
            r == (self.signature@ == table_signature@),
    {
        if table_signature.len() != 4 {
            return false;
        }
        let r = self.signature[0] == table_signature[0] && self.signature[1] == table_signature[1]
            && self.signature[2] == table_signature[2] && self.signature[3] == table_signature[3];
        proof {
            if r {
                assert(self.signature@ =~= table_signature@);
            }
        }
        r
    }
}

/// The number of 32-bit entries that follow the header of a table of
/// `length` bytes.
pub open spec fn entry_count_of(length: u32) -> int {
    (length - ACPI_HEADER_SIZE) / 4
}

/// The root system description table: its header, its physical address, and
/// for each of its entries the entry's address and header.
pub struct RSDT {
    pub header: ACPISTDHeader,
    pub base_addr: usize,
    pub entry_count: usize,
    pub entries: Vec<(usize, ACPISTDHeader)>,
}

impl RSDT {
    /// How many entries a table with this header lists; `None` when its length
    /// does not even cover the header.
    pub fn count_entries(header: &ACPISTDHeader) -> (r: Option<usize>)
        ensures
            match r {
                Some(n) => header.length >= ACPI_HEADER_SIZE && n == entry_count_of(header.length),
                None => header.length < ACPI_HEADER_SIZE,
            },
    {
        if (header.length as usize) < ACPI_HEADER_SIZE {
            return None;
        }
        Some((header.length as usize - ACPI_HEADER_SIZE) / 4)
    }

    pub fn len(&self) -> (r: usize)
        ensures
            r == self.entry_count,
    {
        self.entry_count
    }

    /// The physical addresses of the entries, read from the bytes that follow
    /// the header.
    pub fn get_entries_addr(&self, entry_bytes: &[u8]) -> (r: Vec<u32>)
        requires
            entry_bytes@.len() >= 4 * self.entry_count,
        ensures
            r@.len() == self.entry_count,
            forall|i: int| 0 <= i < self.entry_count ==> r@[i] == le_u32(entry_bytes@, 4 * i),
    {
        let n = entry_bytes.len();
        let mut res: Vec<u32> = Vec::new();
        let mut i: usize = 0;
        let mut off: usize = 0;
        while i < self.entry_count
            invariant
                n == entry_bytes@.len(),
                i <= self.entry_count,
                i < self.entry_count ==> off == 4 * i,
                n >= 4 * self.entry_count,
                res@.len() == i,
                forall|j: int| 0 <= j < i ==> res@[j] == le_u32(entry_bytes@, 4 * j),
            decreases self.entry_count - i,
        {
            res.push(read_u32_le(entry_bytes, off));
            i = i + 1;
            if i < self.entry_count {
                off = off + 4;
            }
        }
        res
    }

    /// The first entry whose table carries `signature`.
    pub fn find_entry(&self, signature: &[u8]) -> (r: Option<(usize, ACPISTDHeader)>)
        ensures
            match r {
                Some(e) => exists|i: int|
                    0 <= i < self.entries@.len() && self.entries@[i] == e && e.1.signature@ == signature@
                        && forall|j: int| 0 <= j < i ==> self.entries@[j].1.signature@ != signature@,
                None => forall|j: int|
                    0 <= j < self.entries@.len() ==> self.entries@[j].1.signature@ != signature@,
            },
    {
        let mut i: usize = 0;
        while i < self.entries.len()
            invariant
                i <= self.entries@.len(),
                forall|j: int| 0 <= j < i ==> self.entries@[j].1.signature@ != signature@,
            decreases self.entries@.len() - i,
        {
            if self.entries[i].1.is_table(signature) {
                return Some(self.entries[i]);
            }
            i = i + 1;
        }
        None
    }
}

/// The offsets of the entries of an MADT of `len` bytes held in `t`, from
/// offset `off` on, whose type is `ty`. The walk stops at a record whose length
/// is below 2 or that runs past the bytes held.
pub open spec fn entries_with_type(t: Seq<u8>, len: int, off: int, ty: u8) -> Seq<usize>
    decreases len - off,
{
    if off >= len || off + 2 > t.len() || t[off + 1] < 2 || off + t[off + 1] > t.len() {
        Seq::empty()
    } else {
        let next = off + t[off + 1];
        let rest = if next < len {
            entries_with_type(t, len, next, ty)
        } else {
            Seq::empty()
        };
        if t[off] == ty {
            seq![off as usize] + rest
        } else {
            rest
        }
    }
}

/// An interrupt source override of the MADT: the ISA `irq` of `bus` arrives
/// on global system interrupt `GSI`.
#[allow(non_snake_case)]
#[derive(Debug, Clone, Copy, PartialEq, Eq, Structural)]
pub struct InterruptSourceOverride {
    pub bus: u8,
    pub irq: u8,
    pub GSI: u32,
    pub flags: u16,
}

/// The override record at `off` of the table bytes `t`.
pub open spec fn override_at(t: Seq<u8>, off: int) -> InterruptSourceOverride {
    InterruptSourceOverride {
        bus: t[off + 2],
        irq: t[off + 3],
        GSI: le_u32(t, off + 4) as u32,
        flags: le_u16(t, off + 8) as u16,
    }
}

/// The multiple APIC description table, with its bytes.
pub struct MADT {
    pub header: ACPISTDHeader,
    pub addr: usize,
    pub table: Vec<u8>,
}

impl MADT {
    /// The interrupt source overrides the table lists, in table order, leaving
    /// out records too short (under 10 bytes) to hold one.
    pub open spec fn overrides(&self) -> Seq<InterruptSourceOverride> {
        entries_with_type(
            self.table@,
            self.header.length as int,
            MADT_ENTRIES_OFFSET as int,
            MADT_INTERRUPT_OVERRIDE,
        ).filter(|o: usize| self.table@[o + 1] >= 10).map_values(|o: usize| override_at(self.table@, o as int))
    }

    pub fn from_ptr_and_header(ptr: usize, header: ACPISTDHeader, table: Vec<u8>) -> (r: MADT)
        ensures
            r.header == header,
            r.addr == ptr,
            r.table@ == table@,
    {
        MADT { header, addr: ptr, table }
    }

    /// The offsets of the entries of type `entry_type`, in table order.
    pub fn get_entries_offset_with_type(&self, entry_type: u8) -> (r: Vec<usize>)
        ensures
            r@ == entries_with_type(self.table@, self.header.length as int, MADT_ENTRIES_OFFSET as int, entry_type),
    {
        let t = &self.table;
        let n = t.len();
        let len = self.header.length as usize;
        let mut result: Vec<usize> = Vec::new();
        let mut offset: usize = MADT_ENTRIES_OFFSET;
        loop
            invariant
                n == t@.len(),
                t@ == self.table@,
                len as int == self.header.length as int,
                result@ + entries_with_type(t@, len as int, offset as int, entry_type)
                    == entries_with_type(t@, len as int, MADT_ENTRIES_OFFSET as int, entry_type),
                len == self.header.length,
            decreases len - offset,
        {
            if offset >= len || offset > n || n - offset < 2 {
                proof {
                    assert(result@ + entries_with_type(t@, len as int, offset as int, entry_type) =~= result@);
                }
                return result;
            }
            let current_type = t[offset];
            let current_length = t[offset + 1] as usize;
            if current_length < 2 || current_length > n - offset {
                proof {
                    assert(result@ + entries_with_type(t@, len as int, offset as int, entry_type) =~= result@);
                }
                return result;
            }
            let next = offset + current_length;
            let ghost rest = if next < len {
                entries_with_type(t@, len as int, next as int, entry_type)
            } else {
                Seq::<usize>::empty()
            };
            let ghost before = result@;
            if current_type == entry_type {
                result.push(offset);
                proof {
                    assert(result@ + rest =~= before + (seq![offset] + rest));
                }
            }
            if next >= len {
                proof {
                    assert(result@ + rest =~= result@);
                }
                return result;
            }
            offset = next;
        }
    }

    pub fn read_byte(&self, offset_of_entry: usize, offset_in_entry: usize) -> (r: u8)
        requires
            offset_of_entry + offset_in_entry < self.table@.len(),
        ensures
            r == self.table@[offset_of_entry + offset_in_entry],
    {
        let n = self.table.len();
        self.table[offset_of_entry + offset_in_entry]
    }

    pub fn read_u16(&self, offset_of_entry: usize, offset_in_entry: usize) -> (r: u16)
        requires
            offset_of_entry + offset_in_entry + 2 <= self.table@.len(),
        ensures
            r == le_u16(self.table@, offset_of_entry + offset_in_entry),
    {
        let n = self.table.len();
        read_u16_le(self.table.as_slice(), offset_of_entry + offset_in_entry)
    }

    pub fn read_u32(&self, offset_of_entry: usize, offset_in_entry: usize) -> (r: u32)
        requires
            offset_of_entry + offset_in_entry + 4 <= self.table@.len(),
        ensures
            r == le_u32(self.table@, offset_of_entry + offset_in_entry),
    {
        let n = self.table.len();
        read_u32_le(self.table.as_slice(), offset_of_entry + offset_in_entry)
    }

    /// The physical address of the first I/O APIC the table lists; `None` when
    /// it lists none, or the record is too short to hold the address.
    pub fn get_ioapic_addr(&self) -> (r: Option<u32>)
        ensures
            ({
                let offs = entries_with_type(
                    self.table@,
                    self.header.length as int,
                    MADT_ENTRIES_OFFSET as int,
                    MADT_IO_APIC,
                );
                if offs.len() == 0 || self.table@[offs[0] + 1] < 8 {
                    r is None
                } else {
                    r == Some(le_u32(self.table@, offs[0] + 4) as u32)
                }
            }),
    {
        let n = self.table.len();
        let offsets = self.get_entries_offset_with_type(MADT_IO_APIC);
        if offsets.len() == 0 {
            return None;
        }
        let entry = offsets[0];
        proof {
            lemma_entries_in_table(self.table@, self.header.length as int, MADT_ENTRIES_OFFSET as int, MADT_IO_APIC);
        }
        if self.table[entry + 1] < 8 {
            return None;
        }
        Some(self.read_u32(entry, 4))
    }

    /// The interrupt source overrides, in table order.
    pub fn get_interrupt_overrides(&self) -> (r: Vec<InterruptSourceOverride>)
        ensures
            r@ == self.overrides(),
    {
        let ghost t = self.table@;
        let n = self.table.len();
        let offsets = self.get_entries_offset_with_type(MADT_INTERRUPT_OVERRIDE);
        let ghost offs = offsets@;
        proof {
            lemma_entries_in_table(t, self.header.length as int, MADT_ENTRIES_OFFSET as int, MADT_INTERRUPT_OVERRIDE);
        }
        let mut result: Vec<InterruptSourceOverride> = Vec::new();
        let mut i: usize = 0;
        while i < offsets.len()
            invariant
                t == self.table@,
                n == t.len(),
                offs == offsets@,
                i <= offs.len(),
                forall|k: int| 0 <= k < offs.len() ==> offs[k] + 2 <= t.len() && offs[k] + t[offs[k] + 1] <= t.len(),
                result@ == offs.subrange(0, i as int).filter(|o: usize| t[o + 1] >= 10).map_values(
                    |o: usize| override_at(t, o as int),
                ),
            decreases offs.len() - i,
        {
            let entry = offsets[i];
            proof {
                reveal(Seq::filter);
                assert(offs.subrange(0, i + 1).drop_last() =~= offs.subrange(0, i as int));
            }
            if self.table[entry + 1] >= 10 {
                let o = InterruptSourceOverride {
                    bus: self.read_byte(entry, 2),
                    irq: self.read_byte(entry, 3),
                    GSI: self.read_u32(entry, 4),
                    flags: self.read_u16(entry, 8),
                };
                let ghost before = result@;
                result.push(o);
                proof {
                    assert(result@ =~= offs.subrange(0, i + 1).filter(|o: usize| t[o + 1] >= 10).map_values(
                        |o: usize| override_at(t, o as int),
                    ));
                }
            } else {
                proof {
                    assert(result@ =~= offs.subrange(0, i + 1).filter(|o: usize| t[o + 1] >= 10).map_values(
                        |o: usize| override_at(t, o as int),
                    ));
                }
            }
            i = i + 1;
        }
        proof {
            assert(offs.subrange(0, offs.len() as int) =~= offs);
        }
        result
    }

    /// The global system interrupt that ISA interrupt `irq` arrives on, if an
    /// override names it (the first that does).
    pub fn find_override(&self, irq: u8) -> (r: Option<u32>)
        ensures
            match r {
                Some(g) => exists|i: int|
                    0 <= i < self.overrides().len() && (#[trigger] self.overrides()[i]).irq == irq
                        && self.overrides()[i].GSI == g && forall|j: int|
                        0 <= j < i ==> self.overrides()[j].irq != irq,
                None => forall|j: int| 0 <= j < self.overrides().len() ==> self.overrides()[j].irq != irq,
            },
    {
        let overrides = self.get_interrupt_overrides();
        let mut i: usize = 0;
        while i < overrides.len()
            invariant
                overrides@ == self.overrides(),
                i <= overrides@.len(),
                forall|j: int| 0 <= j < i ==> overrides@[j].irq != irq,
            decreases overrides@.len() - i,
        {
            if overrides[i].irq == irq {
                proof {
                    let k = i as int;
                    assert(self.overrides()[k] == overrides@[k]);
                }
                return Some(overrides[i].GSI);
            }
            i = i + 1;
        }
        None
    }
}

/// Every offset the walk yields starts a record that lies within the bytes
/// held.
proof fn lemma_entries_in_table(t: Seq<u8>, len: int, off: int, ty: u8)
    requires
        0 <= off,
        t.len() <= usize::MAX,
    ensures
        forall|k: int|
            0 <= k < entries_with_type(t, len, off, ty).len() ==> {
                let o = (#[trigger] entries_with_type(t, len, off, ty)[k]) as int;
                &&& o + 2 <= t.len()
                &&& o + t[o + 1] <= t.len()
                &&& t[o] == ty
            },
    decreases len - off,
{
    if !(off >= len || off + 2 > t.len() || t[off + 1] < 2 || off + t[off + 1] > t.len()) {
        let next = off + t[off + 1];
        if next < len {
            lemma_entries_in_table(t, len, next, ty);
        }
        let rest = if next < len {
            entries_with_type(t, len, next, ty)
        } else {
            Seq::<usize>::empty()
        };
        if t[off] == ty {
            assert forall|k: int| 1 <= k < rest.len() + 1 implies #[trigger] (seq![off as usize] + rest)[k]
                == rest[k - 1] by {}
        }
    }
}

} // verus!
