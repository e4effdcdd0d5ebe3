use vstd::prelude::*;

verus! {

/// Size of a page.
pub const PAGE_SIZE: u64 = 4096;

/// Program-header type of a segment to load.
pub const PT_LOAD: u32 = 1;

/// Pages of user stack placed right after the loaded segments.
pub const STACK_PAGES: u64 = 2;

/// Pages of user heap, placed one guard page after the stack.
pub const HEAP_PAGES: u64 = 16;

/// One program header of an ELF image.
#[derive(Debug, Clone, Copy, PartialEq, Eq, Structural)]
pub struct ProgramSegment {
    pub p_type: u32,
    pub p_offset: u64,
    pub p_vaddr: u64,
    pub p_filesz: u64,
    pub p_memsz: u64,
}

/// (type, file offset, virtual address, size in the file, size in memory).
pub type SegmentView = (u32, u64, u64, u64, u64);

impl View for ProgramSegment {
    type V = SegmentView;

    open spec fn view(&self) -> SegmentView {
        (self.p_type, self.p_offset, self.p_vaddr, self.p_filesz, self.p_memsz)
    }
}

/// The entry point and program headers that the `elf` crate reads from an
/// image; `None` when it cannot parse the image or finds no program headers.
pub uninterp spec fn elf_image_of(data: Seq<u8>) -> Option<(u64, Seq<SegmentView>)>;

/// Relies on `elf::ElfBytes::minimal_parse`, `ElfBytes::segments` and the
/// segment table's iterator: the entry point and the program headers, in
/// table order. The result depends on the bytes alone.
#[verifier::external_body]
fn read_elf_image(data: &[u8]) -> (r: Option<(u64, Vec<ProgramSegment>)>)
    ensures
        match r {
            Some((entry, segs)) => elf_image_of(data@) == Some(
                (entry, segs@.map_values(|s: ProgramSegment| s@)),
            ),
            None => elf_image_of(data@) is None,
        },
{
    let file = elf::ElfBytes::<elf::endian::AnyEndian>::minimal_parse(data).ok()?;
    let table = file.segments()?;
    let segs = table.iter().map(|h| ProgramSegment {
        p_type: h.p_type,
        p_offset: h.p_offset,
        p_vaddr: h.p_vaddr,
        p_filesz: h.p_filesz,
        p_memsz: h.p_memsz,
    }).collect();
    Some((file.ehdr.e_entry, segs))
}

/// Pages that `memsz` bytes take, rounded up.
pub open spec fn pages_for(memsz: u64) -> int {
    (memsz + 4095) / 4096
}

/// One past the last page a segment occupies: the start of the page holding
/// its first byte, plus its pages.
pub open spec fn segment_end(s: SegmentView) -> int {
    s.2 - s.2 % 4096 + 4096 * pages_for(s.4)
}

/// The largest end of the loadable segments among the first `n` (0 if none).
pub open spec fn end_of_segments(segs: Seq<SegmentView>, n: int) -> int
    decreases n,
{
    if n <= 0 {
        0
    } else {
        let prev = end_of_segments(segs, n - 1);
        let s = segs[n - 1];
        if s.0 == PT_LOAD && segment_end(s) > prev {
            segment_end(s)
        } else {
            prev
        }
    }
}

/// Where an image goes in memory: its entry point, the segments to load, and
/// the stack and heap placed after them.
#[derive(Debug)]
pub struct LoadPlan {
    pub entry: u64,
    pub segments: Vec<ProgramSegment>,
    pub stack_start: u64,
    pub stack_pointer: u64,
    pub heap_start: u64,
    pub heap_len: u64,
}

/// Why an image cannot be loaded.
#[derive(Debug, Clone, Copy, PartialEq, Eq, Structural)]
pub enum LoadError {
    /// The `elf` crate could not read the image or its program headers.
    Malformed,
    /// The segments, stack or heap would run past the end of the address
    /// space.
    AddressOverflow,
}

/// What laying out an image with this entry point and these program headers
/// gives: the loadable segments in table order, a two-page stack at the end
/// of the last one (its pointer 16 bytes below the stack's top), then a guard
/// page and a sixteen-page heap; or `AddressOverflow` exactly when a segment,
/// the stack or the heap would end past the address space.
pub open spec fn plan_post(entry: u64, segs: Seq<SegmentView>, r: Result<LoadPlan, LoadError>) -> bool {
    let end = end_of_segments(segs, segs.len() as int);
    let fits = forall|i: int|
        0 <= i < segs.len() && segs[i].0 == PT_LOAD ==> segment_end(#[trigger] segs[i]) <= u64::MAX;
    match r {
        Ok(p) => {
            &&& fits
            &&& end + (STACK_PAGES + 1 + HEAP_PAGES) * PAGE_SIZE <= u64::MAX
            &&& p.entry == entry
            &&& p.segments@.map_values(|s: ProgramSegment| s@) == segs.filter(|s: SegmentView| s.0 == PT_LOAD)
            &&& p.stack_start == end
            &&& p.stack_pointer == end + STACK_PAGES * PAGE_SIZE - 16
            &&& p.heap_start == end + (STACK_PAGES + 1) * PAGE_SIZE
            &&& p.heap_len == HEAP_PAGES * PAGE_SIZE
        },
        Err(e) => e == LoadError::AddressOverflow && !(fits && end + (STACK_PAGES + 1 + HEAP_PAGES) * PAGE_SIZE
            <= u64::MAX),
    }
}

/// The pages a segment needs.
pub fn segment_pages(memsz: u64) -> (r: u64)
    ensures
        r == pages_for(memsz),
{
    memsz / 4096 + if memsz % 4096 != 0 {
        1
    } else {
        0
    }
}

/// The layout an image takes in memory, from its entry point and program
/// headers.
pub fn plan_load(entry: u64, segments: &Vec<ProgramSegment>) -> (r: Result<LoadPlan, LoadError>)
    ensures
        plan_post(entry, segments@.map_values(|s: ProgramSegment| s@), r),
{
    let ghost segs = segments@.map_values(|s: ProgramSegment| s@);
    let mut end: u64 = 0;
    let mut loadable: Vec<ProgramSegment> = Vec::new();
    let mut i: usize = 0;
    while i < segments.len()
        invariant
            segs == segments@.map_values(|s: ProgramSegment| s@),
            i <= segments@.len(),
            end == end_of_segments(segs, i as int),
            forall|k: int| 0 <= k < i && segs[k].0 == PT_LOAD ==> segment_end(#[trigger] segs[k]) <= u64::MAX,
            loadable@.map_values(|s: ProgramSegment| s@) == segs.subrange(0, i as int).filter(
                |s: SegmentView| s.0 == PT_LOAD,
            ),
        decreases segments@.len() - i,
    {
        let s = segments[i];
        proof {
            reveal(Seq::filter);
            assert(segs.subrange(0, i + 1).drop_last() =~= segs.subrange(0, i as int));
        }
        if s.p_type == PT_LOAD {
            let pages = segment_pages(s.p_memsz);
            let page_start = s.p_vaddr - s.p_vaddr % 4096;
            if pages > (u64::MAX - page_start) / 4096 {
                proof {
                    assert(segment_end(segs[i as int]) > u64::MAX) by (nonlinear_arith)
                        requires
                            segment_end(segs[i as int]) == page_start + 4096 * pages,
                            pages > (u64::MAX - page_start) / 4096,
                            page_start <= u64::MAX,
                    ;
                }
                return Err(LoadError::AddressOverflow);
            }
            proof {
                assert(page_start + 4096 * pages <= u64::MAX) by (nonlinear_arith)
                    requires
                        pages <= (u64::MAX - page_start) / 4096,
                        page_start <= u64::MAX,
                ;
            }
            let seg_end = page_start + 4096 * pages;
            if seg_end > end {
                end = seg_end;
            }
            let ghost before = loadable@;
            loadable.push(s);
            proof {
                assert(loadable@.map_values(|s: ProgramSegment| s@) =~= before.map_values(
                    |s: ProgramSegment| s@,
                ).push(segs[i as int]));
            }
        }
        proof {
            assert(loadable@.map_values(|s: ProgramSegment| s@) =~= segs.subrange(0, i + 1).filter(
                |s: SegmentView| s.0 == PT_LOAD,
            ));
        }
        i = i + 1;
    }
    proof {
        assert(segs.subrange(0, segs.len() as int) =~= segs);
    }
    if end > u64::MAX - (STACK_PAGES + 1 + HEAP_PAGES) * PAGE_SIZE {
        return Err(LoadError::AddressOverflow);
    }
    Ok(LoadPlan {
        entry,
        segments: loadable,
        stack_start: end,
        stack_pointer: end + STACK_PAGES * PAGE_SIZE - 16,
        heap_start: end + (STACK_PAGES + 1) * PAGE_SIZE,
        heap_len: HEAP_PAGES * PAGE_SIZE,
    })
}

/// Reads an ELF image and lays it out in memory.
pub fn load_init_elf(data: &[u8]) -> (r: Result<LoadPlan, LoadError>)
    ensures
        match elf_image_of(data@) {
            None => r == Err::<LoadPlan, LoadError>(LoadError::Malformed),
            Some((entry, segs)) => plan_post(entry, segs, r),
        },
{
    match read_elf_image(data) {
        None => Err(LoadError::Malformed),
        Some((entry, segments)) => plan_load(entry, &segments),
    }
}

} // verus!
