//! The PCI half of the Linux kernel interface: which driver id-table entry
//! a device matches, the interrupt vectors handed out per device, the
//! command word that enables bus mastering, and the base-address windows.
use vstd::prelude::*;
use std::collections::BTreeMap;
use crate::kpi::{PCI_IRQ_LEGACY, PCI_IRQ_MSI, PCI_IRQ_MSIX};

verus! {

broadcast use {vstd::std_specs::btree::group_btree_axioms, vstd::laws_cmp::group_laws_cmp};

pub const EINVAL: i32 = 22;
pub const ENODEV: i32 = 19;
pub const EIO: i32 = 5;
pub const EBUSY: i32 = 16;

/// The wildcard of an id-table field.
pub const PCI_ANY_ID: u32 = 0xffff_ffff;

/// A driver's id-table entry.
#[derive(Clone, Copy, Debug, PartialEq, Eq, Structural)]
pub struct PciIdEntry {
    pub vendor: u32,
    pub device: u32,
    pub subvendor: u32,
    pub subdevice: u32,
    pub class: u32,
    pub class_mask: u32,
    pub driver_data: u64,
}

/// What an entry is matched against: the device's numbers and class.
#[derive(Clone, Copy, Debug, PartialEq, Eq, Structural)]
pub struct PciIdentity {
    pub vendor_id: u16,
    pub device_id: u16,
    pub class_code: u8,
    pub subclass: u8,
    pub prog_if: u8,
}

/// The 24-bit class word of a device.
pub open spec fn class_word(d: PciIdentity) -> u32 {
    ((d.class_code as u32) << 16u32) | ((d.subclass as u32) << 8u32) | (d.prog_if as u32)
}

/// An entry matches where its vendor and device are the device's or
/// wildcards, its subsystem fields are wildcards, and its class agrees
/// with the device's on the bits of its mask.
pub open spec fn id_matches(d: PciIdentity, id: PciIdEntry) -> bool {
    &&& (id.vendor == PCI_ANY_ID || id.vendor == d.vendor_id as u32)
    &&& (id.device == PCI_ANY_ID || id.device == d.device_id as u32)
    &&& id.subvendor == PCI_ANY_ID
    &&& id.subdevice == PCI_ANY_ID
    &&& (id.class_mask == 0 || (class_word(d) & id.class_mask) == (id.class & id.class_mask))
}

/// Whether an entry matches a device.
pub fn pci_id_matches(d: &PciIdentity, id: &PciIdEntry) -> (r: bool)
    ensures
        r == id_matches(*d, *id),
{
    let class = ((d.class_code as u32) << 16u32) | ((d.subclass as u32) << 8u32) | (d.prog_if as u32);
    let vendor_matches = id.vendor == PCI_ANY_ID || id.vendor == d.vendor_id as u32;
    let device_matches = id.device == PCI_ANY_ID || id.device == d.device_id as u32;
    let class_matches = id.class_mask == 0 || (class & id.class_mask) == (id.class & id.class_mask);
    vendor_matches && device_matches && id.subvendor == PCI_ANY_ID && id.subdevice == PCI_ANY_ID
        && class_matches
}

/// The all-zero entry that ends an id table.
pub open spec fn is_terminator(id: PciIdEntry) -> bool {
    id.vendor == 0 && id.device == 0 && id.subvendor == 0 && id.subdevice == 0 && id.class == 0
        && id.class_mask == 0 && id.driver_data == 0
}

/// Whether an entry ends its table.
pub fn is_id_terminator(id: &PciIdEntry) -> (r: bool)
    ensures
        r == is_terminator(*id),
{
    id.vendor == 0 && id.device == 0 && id.subvendor == 0 && id.subdevice == 0 && id.class == 0
        && id.class_mask == 0 && id.driver_data == 0
}

/// The first entry at or after `i`, before the table's end, that matches.
pub open spec fn first_match(entries: Seq<PciIdEntry>, d: PciIdentity, i: int) -> Option<int>
    decreases entries.len() - i,
{
    if i < 0 || i >= entries.len() || is_terminator(entries[i]) {
        None
    } else if id_matches(d, entries[i]) {
        Some(i)
    } else {
        first_match(entries, d, i + 1)
    }
}

/// The position of the id-table entry a device matches: entries are tried
/// in order up to the all-zero one that ends the table.
pub fn matching_id_index(entries: &Vec<PciIdEntry>, d: &PciIdentity) -> (r: Option<usize>)
    ensures
        match first_match(entries@, *d, 0) {
            Some(k) => r == Some(k as usize),
            None => r is None,
        },
{
    let mut i: usize = 0;
    while i < entries.len()
        invariant
            i <= entries@.len(),
            first_match(entries@, *d, 0) == first_match(entries@, *d, i as int),
        decreases entries@.len() - i,
    {
        if is_id_terminator(&entries[i]) {
            return None;
        }
        if pci_id_matches(d, &entries[i]) {
            return Some(i);
        }
        i = i + 1;
    }
    None
}

/// The flags that ask for some kind of interrupt.
pub open spec fn wants_interrupts(flags: u32) -> bool {
    flags & (PCI_IRQ_MSI | PCI_IRQ_MSIX | PCI_IRQ_LEGACY) != 0
}

/// How many vectors a request gets: the most it asks for with MSI-X, else
/// one.
pub open spec fn vector_count(max_vecs: i32, flags: u32) -> i32 {
    if flags & PCI_IRQ_MSIX != 0 {
        max_vecs
    } else {
        1
    }
}

/// The outcome of a vector request for a device whose interrupt line is
/// `irq` (`taken` where it holds vectors already): the number of vectors,
/// or the negated error number.
pub open spec fn allocation_spec(taken: bool, irq: u32, min_vecs: i32, max_vecs: i32, flags: u32) -> int {
    if min_vecs <= 0 || max_vecs <= 0 || min_vecs > max_vecs {
        -EINVAL
    } else if !wants_interrupts(flags) {
        -EINVAL
    } else if irq as i32 <= 0 {
        -ENODEV
    } else if taken {
        -EBUSY
    } else if vector_count(max_vecs, flags) < min_vecs {
        -EINVAL
    } else {
        vector_count(max_vecs, flags) as int
    }
}

/// Numbering the vectors from the device's line overflows 32 bits.
pub open spec fn numbering_overflows(irq: u32, max_vecs: i32, flags: u32) -> bool {
    irq as i32 + vector_count(max_vecs, flags) - 1 > i32::MAX
}

/// The vectors handed out: consecutive numbers from the device's line.
pub open spec fn vectors_from(irq: u32, count: i32) -> Seq<i32> {
    Seq::new(count as nat, |i: int| (irq as i32 + i) as i32)
}

/// The interrupt vectors handed out, by device.
pub struct IrqVectorTable {
    vectors: BTreeMap<usize, Vec<i32>>,
}

impl IrqVectorTable {
    /// The vectors each device holds.
    pub closed spec fn held(&self) -> Map<usize, Seq<i32>> {
        self.vectors@.map_values(|v: Vec<i32>| v@)
    }

    pub fn new() -> (r: Self)
        ensures
            r.held() == Map::<usize, Seq<i32>>::empty(),
    {
        let r = IrqVectorTable { vectors: BTreeMap::new() };
        assert(r.held() =~= Map::<usize, Seq<i32>>::empty());
        r
    }

    /// Hands out vectors to a device (`None` for a missing device): the
    /// number handed out, or the negated error number; the device then
    /// holds consecutive vectors from its interrupt line.
    pub fn allocate(&mut self, dev: Option<usize>, irq: u32, min_vecs: i32, max_vecs: i32, flags: u32) -> (r:
        i32)
        requires
            !(dev is Some && allocation_spec(
                old(self).held().contains_key(dev->0),
                irq,
                min_vecs,
                max_vecs,
                flags,
            ) > 0 && numbering_overflows(irq, max_vecs, flags)),
        ensures
            dev is None ==> r == -EINVAL && final(self).held() == old(self).held(),
            dev matches Some(key) ==> {
                &&& r == allocation_spec(
                    old(self).held().contains_key(key),
                    irq,
                    min_vecs,
                    max_vecs,
                    flags,
                )
                &&& r > 0 ==> final(self).held() == old(self).held().insert(
                    key,
                    vectors_from(irq, r),
                )
                &&& r <= 0 ==> final(self).held() == old(self).held()
            },
    {
        let key = match dev {
            None => {
                return -EINVAL;
            },
            Some(k) => k,
        };
        if min_vecs <= 0 || max_vecs <= 0 || min_vecs > max_vecs {
            return -EINVAL;
        }
        if flags & (PCI_IRQ_MSI | PCI_IRQ_MSIX | PCI_IRQ_LEGACY) == 0 {
            return -EINVAL;
        }
        let base = irq as i32;
        if base <= 0 {
            return -ENODEV;
        }
        if self.vectors.contains_key(&key) {
            return -EBUSY;
        }
        let count = if flags & PCI_IRQ_MSIX != 0 {
            max_vecs
        } else {
            1
        };
        if count < min_vecs {
            return -EINVAL;
        }
        let mut allocated: Vec<i32> = Vec::new();
        let mut index: i32 = 0;
        while index < count
            invariant
                0 <= index <= count,
                base == irq as i32,
                base + count - 1 <= i32::MAX,
                allocated@ == vectors_from(irq, index),
            decreases count - index,
        {
            allocated.push(base + index);
            index = index + 1;
            assert(allocated@ =~= vectors_from(irq, index));
        }
        self.vectors.insert(key, allocated);
        assert(self.held() =~= old(self).held().insert(key, vectors_from(irq, count)));
        count
    }

    /// Whether a request would number vectors past the largest 32-bit
    /// interrupt number (where the request would otherwise be granted).
    pub fn request_overflows(&self, dev: Option<usize>, irq: u32, min_vecs: i32, max_vecs: i32, flags: u32) -> (r:
        bool)
        ensures
            r == (dev is Some && allocation_spec(
                self.held().contains_key(dev->0),
                irq,
                min_vecs,
                max_vecs,
                flags,
            ) > 0 && numbering_overflows(irq, max_vecs, flags)),
    {
        let key = match dev {
            None => {
                return false;
            },
            Some(k) => k,
        };
        if min_vecs <= 0 || max_vecs <= 0 || min_vecs > max_vecs {
            return false;
        }
        if flags & (PCI_IRQ_MSI | PCI_IRQ_MSIX | PCI_IRQ_LEGACY) == 0 {
            return false;
        }
        let base = irq as i32;
        if base <= 0 || self.vectors.contains_key(&key) {
            return false;
        }
        let count = if flags & PCI_IRQ_MSIX != 0 {
            max_vecs
        } else {
            1
        };
        if count < min_vecs {
            return false;
        }
        (base as i64) + (count as i64) - 1 > i32::MAX as i64
    }

    /// A device's vector at a position, or `-EINVAL` where it has none
    /// there (or the device is missing).
    pub fn vector(&self, dev: Option<usize>, idx: i32) -> (r: i32)
        ensures
            r == (match dev {
                None => -EINVAL,
                Some(key) => if idx < 0 || !self.held().contains_key(key) || idx
                    >= self.held()[key].len() {
                    -EINVAL
                } else {
                    self.held()[key][idx as int] as int
                },
            }),
    {
        let key = match dev {
            None => {
                return -EINVAL;
            },
            Some(k) => k,
        };
        if idx < 0 {
            return -EINVAL;
        }
        match self.vectors.get(&key) {
            None => -EINVAL,
            Some(v) => {
                if (idx as usize) < v.len() {
                    v[idx as usize]
                } else {
                    -EINVAL
                }
            },
        }
    }

    /// Releases a device's vectors.
    pub fn free(&mut self, dev: Option<usize>)
        ensures
            final(self).held() == match dev {
                None => old(self).held(),
                Some(key) => old(self).held().remove(key),
            },
    {
        if let Some(key) = dev {
            self.vectors.remove(&key);
            assert(self.held() =~= old(self).held().remove(key));
        }
    }

    /// The vectors a device holds, in order.
    pub fn held_by(&self, dev: usize) -> (r: Vec<i32>)
        ensures
            self.held().contains_key(dev) ==> r@ == self.held()[dev],
            !self.held().contains_key(dev) ==> r@.len() == 0,
    {
        match self.vectors.get(&dev) {
            None => Vec::new(),
            Some(v) => v.clone(),
        }
    }
}

/// After a successful request, position `i` holds the device's interrupt
/// line plus `i`, for every position handed out.
pub proof fn lemma_allocated_vector(irq: u32, count: i32, i: int)
    requires
        0 <= i < count,
    ensures
        vectors_from(irq, count)[i] == (irq as i32 + i) as i32,
{
}

/// The command word that enables bus mastering: `None` where it is on
/// already, else the low half of the word with the master bit set.
pub fn bus_master_command(cmd: u32) -> (r: Option<u32>)
    ensures
        cmd & 0x04 != 0 ==> r is None,
        cmd & 0x04 == 0 ==> r == Some((cmd & 0x0000_FFFF) | 0x04),
{
    if cmd & 0x04 != 0 {
        None
    } else {
        Some((cmd & 0x0000_FFFF) | 0x04)
    }
}

/// How much of a window `pci_iomap` maps: the length asked for, else the
/// whole window (its size taken as a `usize`).
pub fn iomap_len(max_len: usize, bar_size: u64) -> (r: usize)
    ensures
        r == (if max_len > 0 {
            max_len
        } else {
            bar_size as usize
        }),
{
    if max_len > 0 {
        max_len
    } else {
        bar_size as usize
    }
}

/// A device's interrupt line where it has one (0 and 255 mean none).
pub fn irq_line(irq: u32) -> (r: Option<u32>)
    ensures
        r == (if irq != 0 && irq != 255 {
            Some(irq)
        } else {
            None
        }),
{
    if irq != 0 && irq != 255 {
        Some(irq)
    } else {
        None
    }
}

/// A base-address window of a device: its number, address and size.
#[derive(Clone, Copy, Debug, PartialEq, Eq, Structural)]
pub struct BarInfo {
    pub index: usize,
    pub addr: u64,
    pub size: u64,
}

/// The window table a device gets: for each of the six windows, the last
/// window listed with its number, else zeros.
pub open spec fn bar_slot(bars: Seq<BarInfo>, slot: int) -> (u64, u64)
    decreases bars.len(),
{
    if bars.len() == 0 {
        (0, 0)
    } else if bars.last().index == slot {
        (bars.last().addr, bars.last().size)
    } else {
        bar_slot(bars.drop_last(), slot)
    }
}

/// Fills the six-entry address and size tables of a device; windows with
/// a number past the sixth are left out.
pub fn bar_tables(bars: &Vec<BarInfo>) -> (r: ([u64; 6], [u64; 6]))
    ensures
        forall|slot: int| 0 <= slot < 6 ==> (#[trigger] r.0@[slot], r.1@[slot]) == bar_slot(bars@, slot),
{
    let mut addrs = [0u64; 6];
    let mut sizes = [0u64; 6];
    let mut i: usize = 0;
    while i < bars.len()
        invariant
            i <= bars@.len(),
            forall|slot: int| 0 <= slot < 6 ==> (#[trigger] addrs@[slot], sizes@[slot]) == bar_slot(
                bars@.subrange(0, i as int),
                slot,
            ),
        decreases bars@.len() - i,
    {
        let b = bars[i];
        if b.index < 6 {
            addrs[b.index] = b.addr;
            sizes[b.index] = b.size;
        }
        proof {
            assert(bars@.subrange(0, i + 1).drop_last() =~= bars@.subrange(0, i as int));
        }
        i = i + 1;
    }
    assert(bars@.subrange(0, bars@.len() as int) =~= bars@);
    (addrs, sizes)
}

} // verus!
