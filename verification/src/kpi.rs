//! Pieces of the Linux kernel programming interface that drivers port
//! over: the ID allocator, allocation sizing, DMA boundary checks, IRQ mode
//! names and the 802.11 receive status.
use std::collections::HashMap;
use vstd::prelude::*;
use vstd::string::StringExecFns;

verus! {

broadcast use vstd::std_specs::hash::group_hash_axioms;

pub const EINVAL: i32 = 22;

pub const ENOSPC: i32 = 28;

// ---- The ID allocator ----
/// Maps small integer IDs to pointers (kept as addresses), handing out the
/// lowest free ID at or after where the last allocation ended.
pub struct Idr {
    map: HashMap<u32, usize>,
    next_id: u32,
}

/// The lowest ID in `lo..hi` that `m` does not hold.
pub open spec fn least_free(m: Map<u32, usize>, lo: int, hi: int) -> Option<int>
    decreases hi - lo,
{
    if lo >= hi {
        None
    } else if !m.contains_key(lo as u32) {
        Some(lo)
    } else {
        least_free(m, lo + 1, hi)
    }
}

pub proof fn lemma_least_free(m: Map<u32, usize>, lo: int, hi: int)
    requires
        0 <= lo,
        hi <= 0x1_0000_0000,
    ensures
        least_free(m, lo, hi) matches Some(c) ==> lo <= c < hi && !m.contains_key(c as u32)
            && forall|k: int| lo <= k < c ==> #[trigger] m.contains_key(k as u32),
        least_free(m, lo, hi) is None ==> forall|k: int|
            lo <= k < hi ==> #[trigger] m.contains_key(k as u32),
    decreases hi - lo,
{
    if lo < hi && m.contains_key(lo as u32) {
        lemma_least_free(m, lo + 1, hi);
    }
}

/// One past the largest ID a range may give: `end`, or every `u32` for 0.
pub open spec fn id_limit(end: i32) -> int {
    if end == 0 {
        0x1_0000_0000
    } else {
        end as int
    }
}

/// The ID an allocation in `start..hi` picks: the lowest free one from
/// where the last allocation ended (or `start`, if later), else the lowest
/// free one from `start` up to there.
pub open spec fn alloc_choice(m: Map<u32, usize>, next: u32, start: int, hi: int) -> Option<int> {
    let from = if next >= start {
        next as int
    } else {
        start
    };
    match least_free(m, from, hi) {
        Some(c) => Some(c),
        None => least_free(m, start, from),
    }
}

/// Where the allocation after one of `c` starts looking.
pub open spec fn next_after(c: int, start: int, end: i32) -> u32 {
    if end == 0 {
        if c == u32::MAX {
            start as u32
        } else if c + 1 >= start {
            (c + 1) as u32
        } else {
            start as u32
        }
    } else if c + 1 >= end {
        start as u32
    } else {
        (c + 1) as u32
    }
}

/// An ID as the `i32` with its bits.
pub open spec fn id_as_i32(c: int) -> int {
    if c <= i32::MAX {
        c
    } else {
        c - 0x1_0000_0000
    }
}

/// Whether a request's range is refused.
pub open spec fn bad_range(start: i32, end: i32) -> bool {
    start < 0 || end < 0 || (end > 0 && start >= end)
}

impl Idr {
    /// The IDs held and the pointers they map to.
    pub closed spec fn entries(&self) -> Map<u32, usize> {
        self.map@
    }

    /// Where the next allocation starts looking.
    pub closed spec fn next(&self) -> u32 {
        self.next_id
    }

    /// An empty allocator (what `idr_init` writes).
    pub fn new() -> (r: Self)
        ensures
            r.entries() == Map::<u32, usize>::empty(),
            r.next() == 0,
    {
        Idr { map: HashMap::new(), next_id: 0 }
    }

    /// Allocates an ID in `start..end` (`end` 0 for no upper limit) for
    /// `ptr`: the new ID, `-EINVAL` for a bad range or `-ENOSPC` when every
    /// candidate is taken. An ID above `i32::MAX` comes back as the `i32`
    /// with its bits.
    pub fn allocate(&mut self, ptr: usize, start: i32, end: i32, _gfp: u32) -> (r: i32)
        ensures
            bad_range(start, end) ==> r == -EINVAL && final(self).entries() == old(self).entries()
                && final(self).next() == old(self).next(),
            !bad_range(start, end) ==> match alloc_choice(
                old(self).entries(),
                old(self).next(),
                start as int,
                id_limit(end),
            ) {
                None => r == -ENOSPC && final(self).entries() == old(self).entries()
                    && final(self).next() == old(self).next(),
                Some(c) => r == id_as_i32(c) && final(self).entries() == old(self).entries().insert(
                    c as u32,
                    ptr,
                ) && final(self).next() == next_after(c, start as int, end),
            },
    {
        let start = match normalize_id(start) {
            Some(s) => s,
            None => return -EINVAL,
        };
        if end < 0 {
            return -EINVAL;
        }
        if end > 0 && start >= end as u32 {
            return -EINVAL;
        }
        let hi: u64 = if end == 0 {
            0x1_0000_0000
        } else {
            end as u64
        };
        let from: u32 = if self.next_id >= start {
            self.next_id
        } else {
            start
        };
        proof {
            lemma_least_free(self.entries(), from as int, hi as int);
            lemma_least_free(self.entries(), start as int, from as int);
        }
        let found = match self.first_free(from as u64, hi) {
            Some(c) => Some(c),
            None => self.first_free(start as u64, from as u64),
        };
        match found {
            None => -ENOSPC,
            Some(c) => {
                self.map.insert(c, ptr);
                self.next_id = if end == 0 {
                    if c == u32::MAX {
                        start
                    } else if c + 1 >= start {
                        c + 1
                    } else {
                        start
                    }
                } else if c as u64 + 1 >= end as u64 {
                    start
                } else {
                    c + 1
                };
                let r = c as i32;
                assert(r == id_as_i32(c as int)) by (bit_vector)
                    requires
                        r == c as i32,
                ;
                r
            },
        }
    }

    /// The lowest free ID in `lo..hi`.
    fn first_free(&self, lo: u64, hi: u64) -> (r: Option<u32>)
        requires
            hi <= 0x1_0000_0000,
        ensures
            match least_free(self.entries(), lo as int, hi as int) {
                Some(c) => r == Some(c as u32),
                None => r is None,
            },
    {
        let mut k = lo;
        while k < hi
            invariant
                lo <= k,
                hi <= 0x1_0000_0000,
                least_free(self.entries(), lo as int, hi as int) == least_free(
                    self.entries(),
                    k as int,
                    hi as int,
                ),
            decreases hi - k,
        {
            let id = k as u32;
            if !self.map.contains_key(&id) {
                return Some(id);
            }
            k = k + 1;
        }
        None
    }

    /// The pointer an ID maps to, or 0 (null) for a free ID.
    pub fn find(&self, id: u32) -> (r: usize)
        ensures
            r == if self.entries().contains_key(id) {
                self.entries()[id]
            } else {
                0
            },
    {
        match self.map.get(&id) {
            Some(v) => *v,
            None => 0,
        }
    }

    /// Frees an ID; the next allocation looks from it if it lies earlier.
    pub fn remove(&mut self, id: u32)
        ensures
            final(self).entries() == old(self).entries().remove(id),
            final(self).next() == if id < old(self).next() {
                id
            } else {
                old(self).next()
            },
    {
        self.map.remove(&id);
        if id < self.next_id {
            self.next_id = id;
        }
    }

    /// Frees every ID and starts over from 0.
    pub fn destroy(&mut self)
        ensures
            final(self).entries() == Map::<u32, usize>::empty(),
            final(self).next() == 0,
    {
        self.map.clear();
        self.next_id = 0;
    }
}

/// A nonnegative ID as a `u32`.
pub fn normalize_id(value: i32) -> (r: Option<u32>)
    ensures
        value < 0 ==> r is None,
        value >= 0 ==> r == Some(value as u32),
{
    if value < 0 {
        None
    } else {
        Some(value as u32)
    }
}

/// An allocated ID maps to the pointer it was allocated for, and every
/// other ID keeps what it had.
pub proof fn lemma_allocate_then_find(
    before: Map<u32, usize>,
    next: u32,
    start: i32,
    end: i32,
    ptr: usize,
    other: u32,
)
    requires
        !bad_range(start, end),
        alloc_choice(before, next, start as int, id_limit(end)) is Some,
    ensures
        ({
            let c = alloc_choice(before, next, start as int, id_limit(end))->0;
            let after = before.insert(c as u32, ptr);
            &&& !before.contains_key(c as u32)
            &&& start <= c < 0x1_0000_0000
            &&& after.contains_key(c as u32) && after[c as u32] == ptr
            &&& other != c as u32 ==> (after.contains_key(other) == before.contains_key(other))
            &&& other != c as u32 && before.contains_key(other) ==> after[other] == before[other]
        }),
{
    let from = if next >= start {
        next as int
    } else {
        start as int
    };
    lemma_least_free(before, from, id_limit(end));
    lemma_least_free(before, start as int, from);
}

/// Freeing an ID and allocating again from a range that starts at or below
/// it gives that ID back when every ID below it in the range is taken.
pub proof fn lemma_remove_then_reuse(m: Map<u32, usize>, next: u32, id: u32, start: i32, end: i32)
    requires
        !bad_range(start, end),
        start <= id < id_limit(end),
        next >= id,
        forall|k: int| start <= k < id ==> #[trigger] m.contains_key(k as u32),
    ensures
        alloc_choice(m.remove(id), id, start as int, id_limit(end)) == Some(id as int),
{
    let r = m.remove(id);
    assert(!r.contains_key(id));
    assert(least_free(r, id as int, id_limit(end)) == Some(id as int));
}

// ---- Allocation sizing ----
pub const GFP_DMA32: u32 = 2;

/// Rounds `size` up with a mask of `align` (a power of two for the result
/// to be a multiple of it).
pub fn align_up(size: usize, align: usize) -> (r: usize)
    requires
        align >= 1,
        size + align - 1 <= usize::MAX,
    ensures
        r == (size + align - 1) as usize & !((align - 1) as usize),
        align == 16 ==> r % 16 == 0 && size <= r < size + 16,
{
    let x = size + (align - 1);
    let r = x & !(align - 1);
    if align == 16 {
        assert(r % 16 == 0 && x - 15 <= r <= x) by (bit_vector)
            requires
                r == x & !(15usize),
                x >= 15,
        ;
    }
    r
}

/// The size and alignment of a tracked allocation.
#[derive(Clone, Copy, Debug, PartialEq, Eq, Structural)]
pub struct TrackedLayout {
    pub size: usize,
    pub align: usize,
}

/// Whether `Layout::from_size_align` accepts a size with a power-of-two
/// alignment: the size rounded up to the alignment fits in an `isize`.
pub open spec fn layout_fits(size: int, align: int) -> bool {
    size + align - 1 <= isize::MAX
}

/// The layout a device-managed allocation of `size` bytes gets: none for
/// zero bytes, a page-aligned one for a DMA32 request, else the size
/// rounded up to 16 bytes with 16-byte alignment; none where the layout
/// would not fit in an `isize`.
pub fn tracked_layout(size: usize, flags: u32) -> (r: Option<TrackedLayout>)
    ensures
        size == 0 ==> r is None,
        size > 0 && flags & GFP_DMA32 != 0 ==> if layout_fits(size as int, 4096) {
            r == Some(TrackedLayout { size, align: 4096 })
        } else {
            r is None
        },
        size > 0 && flags & GFP_DMA32 == 0 ==> if size + 15 <= isize::MAX {
            r matches Some(l) && l.align == 16 && l.size % 16 == 0 && size <= l.size < size + 16
        } else {
            r is None
        },
{
    if size == 0 {
        return None;
    }
    if flags & GFP_DMA32 != 0 {
        if size > (isize::MAX as usize) - 4095 {
            return None;
        }
        return Some(TrackedLayout { size, align: 4096 });
    }
    if size > (isize::MAX as usize) - 15 {
        return None;
    }
    let aligned_size = align_up(size, 16);
    Some(TrackedLayout { size: aligned_size, align: 16 })
}

// ---- DMA pools ----
/// The smallest power of two at or above `n`.
pub open spec fn next_pow2(n: nat, p: nat) -> nat
    decreases (if p >= n {
        0
    } else {
        n - p
    }),
    when p >= 1
{
    if p >= n {
        p
    } else {
        next_pow2(n, p * 2)
    }
}

/// A pool's alignment: at least 1, rounded up to a power of two; `None`
/// where that overflows.
pub fn sanitize_align(align: usize) -> (r: Option<usize>)
    ensures
        match r {
            Some(a) => a == next_pow2(if align == 0 {
                1nat
            } else {
                align as nat
            }, 1),
            None => next_pow2(align as nat, 1) > usize::MAX,
        },
{
    let want: usize = if align == 0 {
        1
    } else {
        align
    };
    let mut p: usize = 1;
    while p < want
        invariant
            1 <= p,
            next_pow2(want as nat, p as nat) == next_pow2(want as nat, 1),
            want == if align == 0 {
                1nat
            } else {
                align as nat
            },
        decreases want - p + want,
    {
        if p > usize::MAX / 2 {
            proof {
                lemma_next_pow2_above(want as nat, (p * 2) as nat);
            }
            return None;
        }
        p = p * 2;
    }
    Some(p)
}

proof fn lemma_next_pow2_above(n: nat, p: nat)
    requires
        p >= 1,
    ensures
        next_pow2(n, p) >= p,
    decreases (if p >= n {
        0
    } else {
        n - p
    }),
{
    if p < n {
        lemma_next_pow2_above(n, p * 2);
    }
}

/// Whether the bytes `addr..addr + size` cross a multiple of `boundary`
/// (compared by masking with `!(boundary - 1)`); never for a zero size or
/// boundary, always where the end overflows.
pub fn crosses_boundary(addr: u64, size: usize, boundary: usize) -> (r: bool)
    ensures
        r == if boundary == 0 || size == 0 {
            false
        } else if addr + (size - 1) > u64::MAX {
            true
        } else {
            (addr & !((boundary - 1) as u64)) != (((addr + (size - 1)) as u64) & !((boundary
                - 1) as u64))
        },
{
    if boundary == 0 || size == 0 {
        return false;
    }
    let end = match addr.checked_add((size - 1) as u64) {
        Some(e) => e,
        None => return true,
    };
    let mask = !(boundary as u64 - 1);
    (addr & mask) != (end & mask)
}

// ---- IRQs ----
pub const PCI_IRQ_MSI: u32 = 1;

pub const PCI_IRQ_MSIX: u32 = 2;

pub const PCI_IRQ_LEGACY: u32 = 4;

pub const PCI_IRQ_NOLEGACY: u32 = 8;

/// Parts joined with `|` between them.
pub open spec fn joined_bar(parts: Seq<Seq<char>>) -> Seq<char>
    decreases parts.len(),
{
    if parts.len() == 0 {
        Seq::empty()
    } else if parts.len() == 1 {
        parts[0]
    } else {
        joined_bar(parts.drop_last()) + "|"@ + parts.last()
    }
}

/// The modes a flag word asks for, in order.
pub open spec fn irq_mode_parts(flags: u32) -> Seq<Seq<char>> {
    (if flags & PCI_IRQ_MSI != 0 {
        seq!["msi"@]
    } else {
        Seq::empty()
    }) + (if flags & PCI_IRQ_MSIX != 0 {
        seq!["msix"@]
    } else {
        Seq::empty()
    }) + (if flags & PCI_IRQ_LEGACY != 0 {
        seq!["legacy"@]
    } else {
        Seq::empty()
    }) + (if flags & PCI_IRQ_NOLEGACY != 0 {
        seq!["nolegacy"@]
    } else {
        Seq::empty()
    })
}

/// Appends one more part, with a `|` before it unless it is the first.
fn add_part(out: &mut String, part: &str, Ghost(parts): Ghost<Seq<Seq<char>>>)
    requires
        old(out)@ == joined_bar(parts),
        (old(out)@.len() == 0) == (parts.len() == 0),
        part@.len() > 0,
    ensures
        final(out)@ == joined_bar(parts.push(part@)),
        final(out)@.len() > 0,
{
    if out.unicode_len() > 0 {
        out.append("|");
    }
    out.append(part);
    proof {
        assert(parts.push(part@).drop_last() =~= parts);
        if parts.len() == 0 {
            assert(final(out)@ =~= part@);
        }
    }
}

/// The interrupt modes a flag word asks for, for a log line.
pub fn describe_irq_flags(flags: u32) -> (r: String)
    ensures
        r@ == (if irq_mode_parts(flags).len() == 0 {
            "none"@
        } else {
            joined_bar(irq_mode_parts(flags))
        }),
{
    proof {
        reveal_strlit("msi");
        reveal_strlit("msix");
        reveal_strlit("legacy");
        reveal_strlit("nolegacy");
    }
    let mut out = String::new();
    let ghost mut parts: Seq<Seq<char>> = Seq::empty();
    if flags & PCI_IRQ_MSI != 0 {
        add_part(&mut out, "msi", Ghost(parts));
        proof {
            parts = parts.push("msi"@);
        }
    }
    if flags & PCI_IRQ_MSIX != 0 {
        add_part(&mut out, "msix", Ghost(parts));
        proof {
            parts = parts.push("msix"@);
        }
    }
    if flags & PCI_IRQ_LEGACY != 0 {
        add_part(&mut out, "legacy", Ghost(parts));
        proof {
            parts = parts.push("legacy"@);
        }
    }
    if flags & PCI_IRQ_NOLEGACY != 0 {
        add_part(&mut out, "nolegacy", Ghost(parts));
        proof {
            parts = parts.push("nolegacy"@);
        }
    }
    assert(parts =~= irq_mode_parts(flags));
    if out.unicode_len() == 0 {
        return String::from_str("none");
    }
    out
}

/// What an IRQ waiter does after a read of its IRQ file: stop once
/// cancelled, at end of file or on an error, else call the handler.
#[derive(Clone, Copy, Debug, PartialEq, Eq, Structural)]
pub enum IrqStep {
    Stop,
    CallHandler,
}

/// The waiter's decision after a read: `read` is the byte count, or `None`
/// for an error; `cancelled` is whether the IRQ was freed meanwhile.
pub fn irq_step(read: Option<usize>, cancelled: bool) -> (r: IrqStep)
    ensures
        r == match read {
            Some(n) if n > 0 && !cancelled => IrqStep::CallHandler,
            _ => IrqStep::Stop,
        },
{
    match read {
        Some(n) => {
            if n == 0 || cancelled {
                IrqStep::Stop
            } else {
                IrqStep::CallHandler
            }
        },
        None => IrqStep::Stop,
    }
}

// ---- 802.11 receive status ----
/// What the driver reports with a received frame.
#[derive(Clone, Copy, Debug)]
pub struct Ieee80211RxStatus {
    pub freq: u16,
    pub band: u32,
    pub signal: i8,
    pub noise: i8,
    pub rate_idx: u8,
    pub flag: u32,
    pub antenna: u8,
    pub rx_flags: u32,
}

impl Default for Ieee80211RxStatus {
    fn default() -> (r: Self)
        ensures
            r.freq == 0 && r.band == 0 && r.signal == 0 && r.noise == 0 && r.rate_idx == 0
                && r.flag == 0 && r.antenna == 0 && r.rx_flags == 0,
    {
        Ieee80211RxStatus {
            freq: 0,
            band: 0,
            signal: 0,
            noise: 0,
            rate_idx: 0,
            flag: 0,
            antenna: 0,
            rx_flags: 0,
        }
    }
}

pub const RX_FLAG_MMIC_ERROR: u32 = 1 << 0;

pub const RX_FLAG_DECRYPTED: u32 = 1 << 1;

pub const RX_FLAG_MMIC_STRIPPED: u32 = 1 << 2;

pub const RX_FLAG_IV_STRIPPED: u32 = 1 << 3;

} // verus!
