use vstd::arithmetic::div_mod::{lemma_fundamental_div_mod, lemma_mod_multiples_basic};
use vstd::prelude::*;

verus! {

/// Alignment that the start of every claimed span must have (one machine word).
pub const MIN_ALIGN: usize = 8;

/// Why a span could not be claimed.
#[derive(Debug, Clone, Copy, PartialEq, Eq, Structural)]
pub enum ClaimError {
    /// The span holds no bytes.
    EmptySpan,
    /// The span starts at address zero, which is reserved as the failure word.
    NullBase,
    /// The span does not start on a multiple of `MIN_ALIGN`.
    Misaligned,
    /// The span runs past the end of the address space.
    OutOfAddressSpace,
    /// The span overlaps one that another arena has claimed.
    Overlapping,
}

/// Bytes that an allocation of `size` occupies in an arena: a zero-size request
/// still takes one byte, so that live allocations never share an address.
pub open spec fn footprint(size: usize) -> nat {
    if size == 0 {
        1
    } else {
        size as nat
    }
}

/// The ranges `[a, a + s)` and `[b, b + t)` do not overlap.
pub open spec fn disjoint(a: int, s: int, b: int, t: int) -> bool {
    a + s <= b || b + t <= a
}

/// The first address at or above `c` that is a multiple of `align`.
pub open spec fn round_up(c: int, align: int) -> int {
    if c % align == 0 {
        c
    } else {
        c + (align - c % align)
    }
}

/// The span a claim would cover is acceptable.
pub open spec fn claimable(start: usize, len: usize) -> bool {
    &&& len > 0
    &&& start > 0
    &&& start % MIN_ALIGN == 0
    &&& start + len <= usize::MAX
}

/// The error that a claim of `[start, start + len)` reports when the span is
/// not claimable.
pub open spec fn claim_error(start: usize, len: usize) -> ClaimError {
    if len == 0 {
        ClaimError::EmptySpan
    } else if start == 0 {
        ClaimError::NullBase
    } else if start % MIN_ALIGN != 0 {
        ClaimError::Misaligned
    } else {
        ClaimError::OutOfAddressSpace
    }
}

/// The spans `[a, a + al)` and `[b, b + bl)` share an address.
pub open spec fn spans_overlap(a: int, al: int, b: int, bl: int) -> bool {
    a < b + bl && b < a + al
}

/// `[start, start + len)` shares an address with a span of `claimed`.
pub open spec fn overlaps_claimed(claimed: Seq<(usize, usize)>, start: int, len: int) -> bool {
    exists|i: int| 0 <= i < claimed.len() && spans_overlap(start, len, #[trigger] claimed[i].0 as int, claimed[i].1 as int)
}

/// The spans that arenas have claimed and not given back, as (start, length),
/// in the order they were claimed.
pub struct SpanRegistry {
    spans: Vec<(usize, usize)>,
}

impl SpanRegistry {
    pub closed spec fn claimed(&self) -> Seq<(usize, usize)> {
        self.spans@
    }

    /// A registry with no span claimed.
    pub fn new() -> (r: SpanRegistry)
        ensures
            r.claimed() == Seq::<(usize, usize)>::empty(),
    {
        SpanRegistry { spans: Vec::new() }
    }

    /// Whether `[start, start + len)` overlaps a recorded span.
    pub fn overlaps(&self, start: usize, len: usize) -> (r: bool)
        requires
            len > 0,
        ensures
            r == overlaps_claimed(self.claimed(), start as int, len as int),
    {
        let mut i: usize = 0;
        while i < self.spans.len()
            invariant
                i <= self.spans@.len(),
                len > 0,
                forall|j: int| 0 <= j < i ==> !spans_overlap(start as int, len as int, #[trigger] self.spans@[j].0 as int, self.spans@[j].1 as int),
            decreases self.spans@.len() - i,
        {
            let (b, bl) = self.spans[i];
            let hit = if start >= b {
                start - b < bl
            } else {
                b - start < len
            };
            if hit {
                return true;
            }
            i = i + 1;
        }
        false
    }

    /// Gives back the span `[start, start + len)` (its first record), so that
    /// it can be claimed again. Returns `false`, and changes nothing, when no
    /// such span is recorded.
    pub fn release(&mut self, start: usize, len: usize) -> (r: bool)
        ensures
            r == old(self).claimed().contains((start, len)),
            r ==> exists|i: int|
                0 <= i < old(self).claimed().len() && old(self).claimed()[i] == (start, len) && final(self).claimed()
                    == old(self).claimed().remove(i),
            !r ==> final(self).claimed() == old(self).claimed(),
    {
        let mut i: usize = 0;
        while i < self.spans.len()
            invariant
                *self == *old(self),
                i <= self.spans@.len(),
                forall|j: int| 0 <= j < i ==> self.spans@[j] != (start, len),
            decreases self.spans@.len() - i,
        {
            if self.spans[i].0 == start && self.spans[i].1 == len {
                let ghost k = i as int;
                self.spans.remove(i);
                assert(old(self).claimed()[k] == (start, len));
                return true;
            }
            i = i + 1;
        }
        false
    }
}

/// An allocator over a fixed span of addresses `[start, start + len)`.
///
/// It hands out non-overlapping ranges of the span and takes them back in any
/// order; freed ranges are reused (first fit over the gaps between live
/// allocations). It only does the bookkeeping: it never reads or writes the
/// memory it manages.
pub struct Arena {
    start: usize,
    len: usize,
    /// Live allocations as (address, footprint), sorted by address.
    blocks: Vec<(usize, usize)>,
    live_map: Ghost<Map<usize, nat>>,
}

impl Arena {
    /// First address of the span.
    pub closed spec fn span_start(&self) -> nat {
        self.start as nat
    }

    /// One past the last address of the span.
    pub closed spec fn span_end(&self) -> nat {
        (self.start + self.len) as nat
    }

    /// The live allocations: address to the number of bytes it occupies.
    pub closed spec fn live(&self) -> Map<usize, nat> {
        self.live_map@
    }

    pub closed spec fn wf(&self) -> bool {
        let b = self.blocks@;
        &&& claimable(self.start, self.len)
        &&& forall|i: int|
            0 <= i < b.len() ==> {
                &&& self.start <= (#[trigger] b[i]).0
                &&& b[i].1 > 0
                &&& b[i].0 + b[i].1 <= self.start + self.len
            }
        &&& forall|i: int, j: int|
            #![trigger b[i], b[j]]
            0 <= i < j < b.len() ==> b[i].0 + b[i].1 <= b[j].0
        &&& forall|i: int|
            0 <= i < b.len() ==> {
                &&& self.live_map@.contains_key((#[trigger] b[i]).0)
                &&& self.live_map@[b[i].0] == b[i].1 as nat
            }
        &&& forall|a: usize|
            #[trigger] self.live_map@.contains_key(a) ==> exists|i: int|
                0 <= i < b.len() && (#[trigger] b[i]).0 == a
    }

    /// `size` bytes at `addr` would lie inside the span, on a multiple of
    /// `align`, and overlap no live allocation.
    pub open spec fn fits(&self, addr: int, size: nat, align: nat) -> bool {
        &&& self.span_start() <= addr
        &&& addr + size <= self.span_end()
        &&& addr % (align as int) == 0
        &&& forall|b: usize| #[trigger]
            self.live().contains_key(b) ==> disjoint(addr, size as int, b as int, self.live()[b] as int)
    }

    /// Claims the span `[start, start + len)` for a new, empty arena, and
    /// records it in `registry`. A span that is not claimable, or that
    /// overlaps a span already recorded, is refused and nothing is recorded.
    pub fn claim(registry: &mut SpanRegistry, start: usize, len: usize) -> (r: Result<Arena, ClaimError>)
        ensures
            match r {
                Ok(a) => {
                    &&& claimable(start, len)
                    &&& !overlaps_claimed(old(registry).claimed(), start as int, len as int)
                    &&& final(registry).claimed() == old(registry).claimed().push((start, len))
                    &&& a.wf()
                    &&& a.span_start() == start
                    &&& a.span_end() == start + len
                    &&& a.live() == Map::<usize, nat>::empty()
                },
                Err(e) => {
                    &&& final(registry).claimed() == old(registry).claimed()
                    &&& if !claimable(start, len) {
                        e == claim_error(start, len)
                    } else {
                        &&& overlaps_claimed(old(registry).claimed(), start as int, len as int)
                        &&& e == ClaimError::Overlapping
                    }
                },
            },
    {
        if len == 0 {
            return Err(ClaimError::EmptySpan);
        }
        if start == 0 {
            return Err(ClaimError::NullBase);
        }
        if start % MIN_ALIGN != 0 {
            return Err(ClaimError::Misaligned);
        }
        if len > usize::MAX - start {
            return Err(ClaimError::OutOfAddressSpace);
        }
        if registry.overlaps(start, len) {
            return Err(ClaimError::Overlapping);
        }
        registry.spans.push((start, len));
        Ok(Arena { start, len, blocks: Vec::new(), live_map: Ghost(Map::empty()) })
    }

    /// The span, as its first address and its length.
    pub fn span(&self) -> (r: (usize, usize))
        requires
            self.wf(),
        ensures
            r.0 == self.span_start(),
            r.0 + r.1 == self.span_end(),
    {
        (self.start, self.len)
    }

    /// Reserves `size` bytes (one byte if `size` is zero) on a multiple of
    /// `align`. Returns `None` exactly when no such place is free.
    pub fn allocate(&mut self, size: usize, align: usize) -> (r: Option<usize>)
        requires
            old(self).wf(),
            align > 0,
        ensures
            allocate_post(*old(self), *final(self), size, align, r),
    {
        let need: usize = if size == 0 {
            1
        } else {
            size
        };
        let end: usize = self.start + self.len;
        let n: usize = self.blocks.len();
        let mut cursor: usize = self.start;
        let mut i: usize = 0;
        while i < n
            invariant
                *self == *old(self),
                self.wf(),
                n == self.blocks@.len(),
                need as nat == footprint(size),
                align > 0,
                end == self.start + self.len,
                i <= n,
                self.start <= cursor <= end,
                i < n ==> cursor <= self.blocks@[i as int].0,
                forall|j: int| 0 <= j < i ==> #[trigger] self.blocks@[j].0 + self.blocks@[j].1 <= cursor,
                forall|a: int| #[trigger] self.fits(a, need as nat, align as nat) ==> a >= cursor,
            decreases n - i,
        {
            let gap_end = self.blocks[i].0;
            match place_in_gap(cursor, gap_end, need, align) {
                Some(a) => {
                    proof {
                        self.lemma_fits_before_block(a as int, need as nat, align as nat, i as int, cursor as int);
                        assert forall|b: int| #[trigger] self.fits(b, need as nat, align as nat) implies a <= b by {
                            lemma_round_up(cursor as int, align as int, b);
                        }
                    }
                    self.insert_block(i, a, need);
                    return Some(a);
                },
                None => {
                    proof {
                        let b = self.blocks@;
                        assert forall|a: int| #[trigger] self.fits(a, need as nat, align as nat) implies a
                            >= b[i as int].0 + b[i as int].1 by {
                            let k = b[i as int].0;
                            assert(self.live().contains_key(k));
                            assert(a % (align as int) == 0);
                        }
                        assert forall|j: int| 0 <= j < i + 1 implies #[trigger] b[j].0 + b[j].1 <= b[i as int].0
                            + b[i as int].1 by {
                            if j < i {
                                assert(b[j].0 + b[j].1 <= b[i as int].0);
                            }
                        }
                        if i + 1 < n {
                            assert(b[i as int].0 + b[i as int].1 <= b[i + 1].0);
                        }
                    }
                    cursor = self.blocks[i].0 + self.blocks[i].1;
                    i = i + 1;
                },
            }
        }
        match place_in_gap(cursor, end, need, align) {
            Some(a) => {
                proof {
                    self.lemma_fits_after_all(a as int, need as nat, align as nat, cursor as int);
                    assert forall|b: int| #[trigger] self.fits(b, need as nat, align as nat) implies a <= b by {
                        lemma_round_up(cursor as int, align as int, b);
                    }
                }
                self.insert_block(n, a, need);
                Some(a)
            },
            None => {
                proof {
                    assert forall|a: int| !self.fits(a, footprint(size), align as nat) by {
                        if self.fits(a, need as nat, align as nat) {
                            assert(a % (align as int) == 0);
                        }
                    }
                }
                None
            },
        }
    }

    proof fn lemma_fits_before_block(&self, a: int, need: nat, align: nat, i: int, cursor: int)
        requires
            self.wf(),
            align > 0,
            0 <= i < self.blocks@.len(),
            self.start <= cursor <= a,
            a + need <= self.blocks@[i].0,
            a % (align as int) == 0,
            forall|j: int| 0 <= j < i ==> #[trigger] self.blocks@[j].0 + self.blocks@[j].1 <= cursor,
        ensures
            self.fits(a, need, align),
    {
        let b = self.blocks@;
        assert(b[i].0 + b[i].1 <= self.start + self.len);
        assert forall|k: usize| #[trigger] self.live().contains_key(k) implies disjoint(
            a,
            need as int,
            k as int,
            self.live()[k] as int,
        ) by {
            let j = choose|j: int| 0 <= j < b.len() && (#[trigger] b[j]).0 == k;
            if j < i {
                assert(b[j].0 + b[j].1 <= cursor);
            } else if j > i {
                assert(b[i].0 + b[i].1 <= b[j].0);
            }
        }
    }

    proof fn lemma_fits_after_all(&self, a: int, need: nat, align: nat, cursor: int)
        requires
            self.wf(),
            align > 0,
            self.start <= cursor <= a,
            a + need <= self.start + self.len,
            a % (align as int) == 0,
            forall|j: int|
                0 <= j < self.blocks@.len() ==> #[trigger] self.blocks@[j].0 + self.blocks@[j].1 <= cursor,
        ensures
            self.fits(a, need, align),
    {
        let b = self.blocks@;
        assert forall|k: usize| #[trigger] self.live().contains_key(k) implies disjoint(
            a,
            need as int,
            k as int,
            self.live()[k] as int,
        ) by {
            let j = choose|j: int| 0 <= j < b.len() && (#[trigger] b[j]).0 == k;
            assert(b[j].0 + b[j].1 <= cursor);
        }
    }

    /// Records the block `[a, a + need)` at position `i` of the sorted list.
    fn insert_block(&mut self, i: usize, a: usize, need: usize)
        requires
            old(self).wf(),
            0 <= i <= old(self).blocks@.len(),
            need > 0,
            old(self).fits(a as int, need as nat, 1),
            forall|j: int| 0 <= j < i ==> #[trigger] old(self).blocks@[j].0 + old(self).blocks@[j].1 <= a,
            i < old(self).blocks@.len() ==> a + need <= old(self).blocks@[i as int].0,
        ensures
            final(self).wf(),
            final(self).start == old(self).start,
            final(self).len == old(self).len,
            !old(self).live().contains_key(a),
            final(self).live() == old(self).live().insert(a, need as nat),
    {
        let ghost ob = self.blocks@;
        proof {
            ob.insert_ensures(i as int, (a, need));
            if old(self).live().contains_key(a) {
                assert(disjoint(a as int, need as int, a as int, old(self).live()[a] as int));
                let j = choose|j: int| 0 <= j < ob.len() && (#[trigger] ob[j]).0 == a;
                assert(ob[j].1 > 0);
            }
        }
        self.blocks.insert(i, (a, need));
        self.live_map = Ghost(self.live_map@.insert(a, need as nat));
        proof {
            let nb = self.blocks@;
            assert(nb =~= ob.insert(i as int, (a, need)));
            assert forall|p: int, q: int|
                #![trigger nb[p], nb[q]]
                0 <= p < q < nb.len() implies nb[p].0 + nb[p].1 <= nb[q].0 by {
                if q < i {
                } else if q == i {
                    assert(ob[p].0 + ob[p].1 <= a);
                } else if p < i {
                    assert(nb[q] == ob[q - 1]);
                    assert(ob[p].0 + ob[p].1 <= a);
                    if i < ob.len() {
                        if q - 1 > i {
                            assert(ob[i as int].0 + ob[i as int].1 <= ob[q - 1].0);
                        }
                    }
                } else if p == i {
                    assert(nb[q] == ob[q - 1]);
                    if q - 1 > i {
                        assert(ob[i as int].0 + ob[i as int].1 <= ob[q - 1].0);
                    }
                } else {
                    assert(nb[q] == ob[q - 1]);
                    assert(nb[p] == ob[p - 1]);
                }
            }
            assert forall|p: int| 0 <= p < nb.len() implies {
                &&& self.live_map@.contains_key((#[trigger] nb[p]).0)
                &&& self.live_map@[nb[p].0] == nb[p].1 as nat
            } by {
                if p < i {
                    assert(nb[p] == ob[p]);
                    assert(old(self).live_map@.contains_key(ob[p].0));
                    assert(ob[p].0 != a);
                } else if p > i {
                    assert(nb[p] == ob[p - 1]);
                    assert(old(self).live_map@.contains_key(ob[p - 1].0));
                    assert(ob[p - 1].0 != a);
                }
            }
            assert forall|k: usize| #[trigger] self.live_map@.contains_key(k) implies exists|p: int|
                0 <= p < nb.len() && (#[trigger] nb[p]).0 == k by {
                if k == a {
                    assert(nb[i as int].0 == k);
                } else {
                    let j = choose|j: int| 0 <= j < ob.len() && (#[trigger] ob[j]).0 == k;
                    if j < i {
                        assert(nb[j].0 == k);
                    } else {
                        assert(nb[j + 1].0 == k);
                    }
                }
            }
        }
    }

    /// Gives back the allocation at `addr` that was made for `size` bytes.
    /// Returns `false`, and changes nothing, when no such allocation is live.
    pub fn release(&mut self, addr: usize, size: usize) -> (r: bool)
        requires
            old(self).wf(),
        ensures
            release_post(*old(self), *final(self), addr, size, r),
    {
        let need: usize = if size == 0 {
            1
        } else {
            size
        };
        let n: usize = self.blocks.len();
        let mut i: usize = 0;
        while i < n
            invariant
                *self == *old(self),
                self.wf(),
                n == self.blocks@.len(),
                i <= n,
                need as nat == footprint(size),
                forall|j: int| 0 <= j < i ==> (#[trigger] self.blocks@[j]).0 != addr,
            decreases n - i,
        {
            if self.blocks[i].0 == addr {
                proof {
                    assert(self.live_map@.contains_key(self.blocks@[i as int].0));
                }
                if self.blocks[i].1 != need {
                    return false;
                }
                let ghost ob = self.blocks@;
                proof {
                    ob.remove_ensures(i as int);
                }
                self.blocks.remove(i);
                self.live_map = Ghost(self.live_map@.remove(addr));
                proof {
                    let nb = self.blocks@;
                    assert forall|p: int, q: int|
                        #![trigger nb[p], nb[q]]
                        0 <= p < q < nb.len() implies nb[p].0 + nb[p].1 <= nb[q].0 by {
                        if q < i {
                        } else if p < i {
                            assert(nb[q] == ob[q + 1]);
                        } else {
                            assert(nb[q] == ob[q + 1]);
                            assert(nb[p] == ob[p + 1]);
                        }
                    }
                    assert forall|p: int| 0 <= p < nb.len() implies {
                        &&& self.live_map@.contains_key((#[trigger] nb[p]).0)
                        &&& self.live_map@[nb[p].0] == nb[p].1 as nat
                    } by {
                        if p < i {
                            assert(nb[p] == ob[p]);
                            assert(ob[p].0 + ob[p].1 <= ob[i as int].0);
                        } else {
                            assert(nb[p] == ob[p + 1]);
                            assert(ob[i as int].0 + ob[i as int].1 <= ob[p + 1].0);
                        }
                    }
                    assert forall|k: usize| #[trigger] self.live_map@.contains_key(k) implies exists|p: int|
                        0 <= p < nb.len() && (#[trigger] nb[p]).0 == k by {
                        let j = choose|j: int| 0 <= j < ob.len() && (#[trigger] ob[j]).0 == k;
                        assert(j != i);
                        if j < i {
                            assert(nb[j].0 == k);
                        } else {
                            assert(nb[j - 1].0 == k);
                        }
                    }
                }
                return true;
            }
            i = i + 1;
        }
        proof {
            if self.live().contains_key(addr) {
                let j = choose|j: int| 0 <= j < self.blocks@.len() && (#[trigger] self.blocks@[j]).0 == addr;
            }
        }
        false
    }
}

/// What `allocate` does: on success the address is the lowest one where the
/// request fits, it was not live, and it becomes live; `None` comes back, with
/// nothing changed, exactly when no place fits.
pub open spec fn allocate_post(before: Arena, after: Arena, size: usize, align: usize, r: Option<usize>) -> bool {
    &&& after.wf()
    &&& after.span_start() == before.span_start()
    &&& after.span_end() == before.span_end()
    &&& match r {
        Some(a) => {
            &&& before.fits(a as int, footprint(size), align as nat)
            &&& forall|b: int| #[trigger] before.fits(b, footprint(size), align as nat) ==> a <= b
            &&& a != 0
            &&& !before.live().contains_key(a)
            &&& after.live() == before.live().insert(a, footprint(size))
        },
        None => {
            &&& after.live() == before.live()
            &&& forall|a: int| !before.fits(a, footprint(size), align as nat)
        },
    }
}

/// What `release` does: it succeeds exactly when `addr` is live with the
/// footprint of `size`, and then the allocation is no longer live; on failure
/// nothing changes.
pub open spec fn release_post(before: Arena, after: Arena, addr: usize, size: usize, r: bool) -> bool {
    &&& after.wf()
    &&& after.span_start() == before.span_start()
    &&& after.span_end() == before.span_end()
    &&& r == (before.live().contains_key(addr) && before.live()[addr] == footprint(size))
    &&& r ==> after.live() == before.live().remove(addr)
    &&& !r ==> after.live() == before.live()
}

/// One call made on an arena, with what it returned.
pub enum ArenaCall {
    Allocate { size: usize, align: usize, returned: Option<usize> },
    Release { addr: usize, size: usize, released: bool },
}

/// The call was made on `before`, left `after`, and returned what it records.
pub open spec fn call_post(before: Arena, after: Arena, call: ArenaCall) -> bool {
    match call {
        ArenaCall::Allocate { size, align, returned } => align > 0 && allocate_post(
            before,
            after,
            size,
            align,
            returned,
        ),
        ArenaCall::Release { addr, size, released } => release_post(before, after, addr, size, released),
    }
}

/// An idealized allocator's outstanding allocations after one call: an
/// allocation adds the address it returned, a release removes the address if
/// it is outstanding with that size.
pub open spec fn ideal_step(m: Map<usize, nat>, call: ArenaCall) -> Map<usize, nat> {
    match call {
        ArenaCall::Allocate { size, returned, .. } => match returned {
            Some(a) => m.insert(a, footprint(size)),
            None => m,
        },
        ArenaCall::Release { addr, size, .. } => if m.contains_key(addr) && m[addr] == footprint(size) {
            m.remove(addr)
        } else {
            m
        },
    }
}

/// The idealized allocator's outstanding allocations after a sequence of calls.
pub open spec fn ideal_replay(m: Map<usize, nat>, calls: Seq<ArenaCall>) -> Map<usize, nat>
    decreases calls.len(),
{
    if calls.len() == 0 {
        m
    } else {
        ideal_step(ideal_replay(m, calls.drop_last()), calls.last())
    }
}

/// Replaying any sequence of allocate and release calls on one arena leaves
/// exactly the outstanding allocations that an idealized allocator, fed the
/// same calls and results, would hold; and no allocation ever returned an
/// address that was still outstanding.
pub proof fn lemma_replay_matches_ideal(states: Seq<Arena>, calls: Seq<ArenaCall>)
    requires
        states.len() == calls.len() + 1,
        states[0].wf(),
        forall|k: int| 0 <= k < calls.len() ==> call_post(#[trigger] states[k], states[k + 1], calls[k]),
    ensures
        states.last().live() == ideal_replay(states[0].live(), calls),
        forall|k: int|
            0 <= k < calls.len() ==> (#[trigger] calls[k] matches ArenaCall::Allocate {
                returned: Some(a),
                ..
            } ==> !states[k].live().contains_key(a)),
    decreases calls.len(),
{
    if calls.len() > 0 {
        let n = calls.len() - 1;
        let s2 = states.drop_last();
        let c2 = calls.drop_last();
        assert forall|k: int| 0 <= k < c2.len() implies call_post(#[trigger] s2[k], s2[k + 1], c2[k]) by {
            assert(call_post(states[k], states[k + 1], calls[k]));
        }
        lemma_replay_matches_ideal(s2, c2);
        assert(s2.last() == states[n as int]);
        assert(call_post(states[n as int], states[n + 1], calls[n as int]));
        assert forall|k: int|
            0 <= k < calls.len() implies (#[trigger] calls[k] matches ArenaCall::Allocate {
                returned: Some(a),
                ..
            } ==> !states[k].live().contains_key(a)) by {
            assert(call_post(states[k], states[k + 1], calls[k]));
        }
    }
}

/// Two distinct live allocations of a well-formed arena never overlap, and each
/// lies inside the arena's span.
pub proof fn lemma_live_allocations_disjoint(arena: &Arena, a: usize, b: usize)
    requires
        arena.wf(),
        arena.live().contains_key(a),
        arena.live().contains_key(b),
        a != b,
    ensures
        disjoint(a as int, arena.live()[a] as int, b as int, arena.live()[b] as int),
        arena.span_start() <= a,
        a + arena.live()[a] <= arena.span_end(),
        arena.live()[a] > 0,
{
    let s = arena.blocks@;
    let i = choose|i: int| 0 <= i < s.len() && (#[trigger] s[i]).0 == a;
    let j = choose|j: int| 0 <= j < s.len() && (#[trigger] s[j]).0 == b;
    if i < j {
        assert(s[i].0 + s[i].1 <= s[j].0);
    } else if j < i {
        assert(s[j].0 + s[j].1 <= s[i].0);
    }
}

proof fn lemma_round_up(c: int, align: int, x: int)
    requires
        align > 0,
        c >= 0,
    ensures
        round_up(c, align) % align == 0,
        c <= round_up(c, align) < c + align,
        x >= c && x % align == 0 ==> x >= round_up(c, align),
{
    lemma_fundamental_div_mod(c, align);
    let q = c / align;
    let r = c % align;
    if r != 0 {
        assert(round_up(c, align) == align * (q + 1)) by (nonlinear_arith)
            requires
                c == align * q + r,
                round_up(c, align) == c + (align - r),
        ;
        lemma_mod_multiples_basic(q + 1, align);
        if x >= c && x % align == 0 {
            lemma_fundamental_div_mod(x, align);
            let k = x / align;
            assert(x >= align * (q + 1)) by (nonlinear_arith)
                requires
                    x == align * k,
                    x >= align * q + r,
                    r > 0,
                    align > 0,
            ;
        }
    }
}

/// The first place at or above `cursor`, on a multiple of `align`, where `need`
/// bytes end at or before `gap_end`.
fn place_in_gap(cursor: usize, gap_end: usize, need: usize, align: usize) -> (r: Option<usize>)
    requires
        cursor <= gap_end,
        align > 0,
    ensures
        match r {
            Some(a) => a == round_up(cursor as int, align as int) && a % align == 0 && cursor <= a && a + need
                <= gap_end,
            None => forall|x: int| x >= cursor && #[trigger] (x % (align as int)) == 0 ==> x + need > gap_end,
        },
{
    proof {
        lemma_round_up(cursor as int, align as int, 0);
        assert forall|x: int| x >= cursor && #[trigger] (x % (align as int)) == 0 implies x >= round_up(
            cursor as int,
            align as int,
        ) by {
            lemma_round_up(cursor as int, align as int, x);
        }
    }
    let rem = cursor % align;
    let pad: usize = if rem == 0 {
        0
    } else {
        align - rem
    };
    if pad > gap_end - cursor {
        return None;
    }
    let a = cursor + pad;
    if need > gap_end - a {
        return None;
    }
    Some(a)
}

} // verus!
