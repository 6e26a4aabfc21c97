//! Memory bookkeeping of the Linux kernel interface: the allocations each
//! device owns, the parameters a DMA pool is made with, and the checks on
//! DMA addresses.
use std::collections::BTreeMap;
use vstd::prelude::*;

use crate::kpi::sanitize_align;

verus! {

broadcast use {vstd::std_specs::btree::group_btree_axioms, vstd::laws_cmp::group_laws_cmp};

/// The allocations each device owns, by device, in the order the list
/// keeps them.
pub struct DevresRegistry {
    owned: BTreeMap<usize, Vec<usize>>,
}

/// The list after taking out entry `i` by moving the last entry into its
/// place.
pub open spec fn swap_removed(s: Seq<usize>, i: int) -> Seq<usize> {
    s.update(i, s.last()).drop_last()
}

impl DevresRegistry {
    /// The allocations each device owns; a device without any has no entry.
    pub closed spec fn owned(&self) -> Map<usize, Seq<usize>> {
        self.owned@.map_values(|v: Vec<usize>| v@)
    }

    /// An empty registry.
    pub fn new() -> (r: Self)
        ensures
            r.owned() == Map::<usize, Seq<usize>>::empty(),
    {
        let r = DevresRegistry { owned: BTreeMap::new() };
        assert(r.owned() =~= Map::<usize, Seq<usize>>::empty());
        r
    }

    /// Records that `dev` owns the allocation at `ptr`.
    pub fn track(&mut self, dev: usize, ptr: usize)
        ensures
            final(self).owned() == old(self).owned().insert(
                dev,
                if old(self).owned().contains_key(dev) {
                    old(self).owned()[dev]
                } else {
                    Seq::<usize>::empty()
                }.push(ptr),
            ),
    {
        let mut list: Vec<usize> = match self.owned.get(&dev) {
            None => Vec::new(),
            Some(v) => v.clone(),
        };
        list.push(ptr);
        self.owned.insert(dev, list);
        assert(self.owned() =~= old(self).owned().insert(
            dev,
            if old(self).owned().contains_key(dev) {
                old(self).owned()[dev]
            } else {
                Seq::<usize>::empty()
            }.push(ptr),
        ));
    }

    /// Forgets one record of `ptr` under `dev` (the first), moving the last
    /// record into its place; a device left with none loses its entry.
    pub fn untrack(&mut self, dev: usize, ptr: usize)
        ensures
            !(old(self).owned().contains_key(dev) && old(self).owned()[dev].contains(ptr))
                ==> final(self).owned() == old(self).owned(),
            old(self).owned().contains_key(dev) && old(self).owned()[dev].contains(ptr) ==> exists|
                i: int,
            |
                0 <= i < old(self).owned()[dev].len() && old(self).owned()[dev][i] == ptr && (forall|
                    j: int,
                | 0 <= j < i ==> old(self).owned()[dev][j] != ptr) && if old(
                    self,
                ).owned()[dev].len() == 1 {
                    final(self).owned() == old(self).owned().remove(dev)
                } else {
                    final(self).owned() == old(self).owned().insert(
                        dev,
                        swap_removed(old(self).owned()[dev], i),
                    )
                },
    {
        let mut list: Vec<usize> = match self.owned.get(&dev) {
            None => {
                return;
            },
            Some(v) => v.clone(),
        };
        assert(list@ =~= old(self).owned()[dev]);
        let mut i: usize = 0;
        while i < list.len() && list[i] != ptr
            invariant
                0 <= i <= list.len(),
                forall|j: int| 0 <= j < i ==> list@[j] != ptr,
            decreases list.len() - i,
        {
            i = i + 1;
        }
        if i == list.len() {
            assert(!list@.contains(ptr));
            return;
        }
        let ghost before = list@;
        list.swap_remove(i);
        if list.len() == 0 {
            self.owned.remove(&dev);
            assert(self.owned() =~= old(self).owned().remove(dev));
        } else {
            self.owned.insert(dev, list);
            assert(self.owned() =~= old(self).owned().insert(dev, swap_removed(before, i as int)));
        }
    }

    /// Takes every allocation `dev` owns out of the registry, to be freed.
    pub fn take_all(&mut self, dev: usize) -> (r: Vec<usize>)
        ensures
            final(self).owned() == old(self).owned().remove(dev),
            old(self).owned().contains_key(dev) ==> r@ == old(self).owned()[dev],
            !old(self).owned().contains_key(dev) ==> r@.len() == 0,
    {
        let r = match self.owned.remove(&dev) {
            None => Vec::new(),
            Some(v) => v,
        };
        assert(self.owned() =~= old(self).owned().remove(dev));
        r
    }
}

/// An allocation recorded for a device is among what freeing the device's
/// allocations takes, and after that the device owns nothing.
pub proof fn lemma_tracked_then_freed(owned: Map<usize, Seq<usize>>, dev: usize, ptr: usize)
    ensures
        ({
            let after = owned.insert(
                dev,
                if owned.contains_key(dev) {
                    owned[dev]
                } else {
                    Seq::<usize>::empty()
                }.push(ptr),
            );
            &&& after[dev].contains(ptr)
            &&& !after.remove(dev).contains_key(dev)
        }),
{
    let s = if owned.contains_key(dev) {
        owned[dev]
    } else {
        Seq::<usize>::empty()
    };
    assert(s.push(ptr)[s.len() as int] == ptr);
}

/// The size and alignment a DMA pool is made with: none for a zero size,
/// an alignment that cannot be rounded up to a power of two, or blocks
/// larger than a non-zero boundary.
pub fn dma_pool_params(size: usize, align: usize, boundary: usize) -> (r: Option<(usize, usize)>)
    ensures
        size == 0 ==> r is None,
        size != 0 ==> match r {
            Some((s, a)) => s == size && a == crate::kpi::next_pow2(
                if align == 0 {
                    1nat
                } else {
                    align as nat
                },
                1,
            ) && (boundary == 0 || size <= boundary),
            None => crate::kpi::next_pow2(align as nat, 1) > usize::MAX || (boundary != 0 && size > boundary),
        },
{
    if size == 0 {
        return None;
    }
    let a = match sanitize_align(align) {
        None => {
            return None;
        },
        Some(a) => a,
    };
    if boundary != 0 && size > boundary {
        return None;
    }
    Some((size, a))
}

/// Whether a DMA address signals a failed mapping (1) or not (0).
pub fn dma_mapping_error(addr: u64) -> (r: i32)
    ensures
        r == if addr == 0 {
            1i32
        } else {
            0i32
        },
{
    if addr == 0 {
        1
    } else {
        0
    }
}

/// The address a page mapping starts at: the page plus the offset, `None`
/// for a missing page, an empty mapping or an address past the top.
pub fn page_map_address(page: usize, offset: usize, size: usize) -> (r: Option<usize>)
    ensures
        r == if page == 0 || size == 0 || page + offset > usize::MAX {
            None
        } else {
            Some((page + offset) as usize)
        },
{
    if page == 0 || size == 0 {
        return None;
    }
    page.checked_add(offset)
}

pub const DMA32_LIMIT: u64 = 0x1_0000_0000;

/// Whether a candidate allocation at physical address `phys` suits a
/// device limited to 32-bit DMA: translated, and below 4 GiB.
pub fn dma32_accepts(phys: u64) -> (r: bool)
    ensures
        r == (phys != 0 && phys < DMA32_LIMIT),
{
    phys != 0 && phys < DMA32_LIMIT
}

/// The worker threads a work queue gets: as many as may be active, or
/// four where no positive number is given.
pub fn workqueue_threads(max_active: i32) -> (r: usize)
    ensures
        r == if max_active > 0 {
            max_active as usize
        } else {
            4usize
        },
{
    if max_active > 0 {
        max_active as usize
    } else {
        4
    }
}

} // verus!
