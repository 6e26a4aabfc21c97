//! The networking half of the Linux kernel interface: where a socket
//! buffer's data lies inside its allocation and how the buffer operations
//! move it, the transmit queues' stopped bits, and NAPI completion.
use vstd::prelude::*;

verus! {

/// A socket buffer's geometry, as offsets into its allocation: the data
/// starts `headroom` bytes in, holds `len` bytes, ends `tail` bytes after
/// its start, and the allocation is `end` bytes long.
#[derive(Clone, Copy, Debug, PartialEq, Eq, Structural)]
pub struct SkbLayout {
    pub headroom: u64,
    pub len: u32,
    pub tail: u32,
    pub end: u32,
    pub mac_header: i32,
}

/// A fresh buffer of `size` bytes: no headroom, no data.
pub fn skb_layout_new(size: u32) -> (r: SkbLayout)
    ensures
        r == (SkbLayout { headroom: 0, len: 0, tail: 0, end: size, mac_header: 0 }),
{
    SkbLayout { headroom: 0, len: 0, tail: 0, end: size, mac_header: 0 }
}

/// The headroom as the interface reports it: as a 32-bit number, or 0
/// where it does not fit.
pub open spec fn headroom32(l: SkbLayout) -> u32 {
    if l.headroom <= u32::MAX {
        l.headroom as u32
    } else {
        0
    }
}

/// The headroom as the interface reports it.
pub fn skb_headroom(l: &SkbLayout) -> (r: u32)
    ensures
        r == headroom32(*l),
{
    if l.headroom <= u32::MAX as u64 {
        l.headroom as u32
    } else {
        0
    }
}

/// The room after the data: what the allocation holds beyond the headroom
/// and the data (0 where nothing is left).
pub open spec fn tailroom_spec(l: SkbLayout) -> u32 {
    let used = if headroom32(l) + l.tail > u32::MAX {
        u32::MAX as int
    } else {
        headroom32(l) + l.tail
    };
    if used >= l.end {
        0
    } else {
        (l.end - used) as u32
    }
}

/// The room after the data.
pub fn skb_tailroom(l: &SkbLayout) -> (r: u32)
    ensures
        r == tailroom_spec(*l),
{
    l.end.saturating_sub(skb_headroom(l).saturating_add(l.tail))
}

/// Reserving headroom: only in an empty buffer, and only as far as the
/// allocation reaches; the MAC header then starts at the data.
pub open spec fn reserve_spec(l: SkbLayout, n: u32) -> SkbLayout {
    let new_headroom = if headroom32(l) + n > u32::MAX {
        u32::MAX as int
    } else {
        headroom32(l) + n
    };
    if new_headroom > l.end || l.tail != 0 || l.len != 0 {
        l
    } else {
        SkbLayout { headroom: new_headroom as u64, mac_header: new_headroom as i32, ..l }
    }
}

/// Reserves `n` bytes of headroom.
pub fn skb_reserve(l: SkbLayout, n: u32) -> (r: SkbLayout)
    ensures
        r == reserve_spec(l, n),
{
    let new_headroom = skb_headroom(&l).saturating_add(n);
    if new_headroom > l.end || l.tail != 0 || l.len != 0 {
        return l;
    }
    SkbLayout { headroom: new_headroom as u64, mac_header: new_headroom as i32, ..l }
}

/// Appending `n` bytes of data: where the allocation has room, the new
/// bytes start at the old tail (counted from the data's start).
pub open spec fn put_spec(l: SkbLayout, n: u32) -> Option<(SkbLayout, u32)> {
    let new_tail = if l.tail + n > u32::MAX {
        u32::MAX as int
    } else {
        l.tail + n
    };
    if new_tail > l.end {
        None
    } else {
        Some(
            (
                SkbLayout {
                    tail: new_tail as u32,
                    len: if l.len + n > u32::MAX {
                        u32::MAX
                    } else {
                        (l.len + n) as u32
                    },
                    ..l
                },
                l.tail,
            ),
        )
    }
}

/// Appends `n` bytes; the offset of the new bytes from the data's start.
pub fn skb_put(l: SkbLayout, n: u32) -> (r: Option<(SkbLayout, u32)>)
    ensures
        r == put_spec(l, n),
{
    let new_tail = l.tail.saturating_add(n);
    if new_tail > l.end {
        return None;
    }
    Some((SkbLayout { tail: new_tail, len: l.len.saturating_add(n), ..l }, l.tail))
}

/// Prepending `n` bytes: the data start moves back into the headroom,
/// where there is that much of it.
pub open spec fn push_spec(l: SkbLayout, n: u32) -> Option<SkbLayout> {
    if l.headroom < n {
        None
    } else {
        Some(
            SkbLayout {
                headroom: (l.headroom - n) as u64,
                tail: if l.tail + n > u32::MAX {
                    u32::MAX
                } else {
                    (l.tail + n) as u32
                },
                len: if l.len + n > u32::MAX {
                    u32::MAX
                } else {
                    (l.len + n) as u32
                },
                ..l
            },
        )
    }
}

/// Prepends `n` bytes.
pub fn skb_push(l: SkbLayout, n: u32) -> (r: Option<SkbLayout>)
    ensures
        r == push_spec(l, n),
{
    if l.headroom < n as u64 {
        return None;
    }
    Some(
        SkbLayout {
            headroom: l.headroom - n as u64,
            tail: l.tail.saturating_add(n),
            len: l.len.saturating_add(n),
            ..l
        },
    )
}

/// Removing `n` bytes from the front: only as many as the data holds.
pub open spec fn pull_spec(l: SkbLayout, n: u32) -> Option<SkbLayout> {
    if n > l.len {
        None
    } else {
        Some(
            SkbLayout {
                headroom: (l.headroom + n) as u64,
                tail: if l.tail < n {
                    0
                } else {
                    (l.tail - n) as u32
                },
                len: (l.len - n) as u32,
                ..l
            },
        )
    }
}

/// Removes `n` bytes from the front.
pub fn skb_pull(l: SkbLayout, n: u32) -> (r: Option<SkbLayout>)
    requires
        l.headroom + n <= u64::MAX,
    ensures
        r == pull_spec(l, n),
{
    if n > l.len {
        return None;
    }
    Some(
        SkbLayout {
            headroom: l.headroom + n as u64,
            tail: l.tail.saturating_sub(n),
            len: l.len - n,
            ..l
        },
    )
}

/// Cuts the data to at most `n` bytes.
pub fn skb_trim(l: SkbLayout, n: u32) -> (r: SkbLayout)
    ensures
        r == (SkbLayout {
            len: if n < l.len {
                n
            } else {
                l.len
            },
            tail: if n < l.len {
                n
            } else {
                l.len
            },
            ..l
        }),
{
    let new_len = if n < l.len {
        n
    } else {
        l.len
    };
    SkbLayout { len: new_len, tail: new_len, ..l }
}

/// Prepending bytes and then removing as many from the front gives the
/// buffer back as it was, where neither the data length nor the tail
/// saturated on the way.
pub proof fn lemma_push_then_pull(l: SkbLayout, n: u32)
    requires
        push_spec(l, n) is Some,
        l.tail + n <= u32::MAX,
        l.len + n <= u32::MAX,
    ensures
        pull_spec(push_spec(l, n)->0, n) == Some(l),
{
}

/// Appending data within the allocation keeps the tail inside it.
pub proof fn lemma_put_stays_inside(l: SkbLayout, n: u32)
    requires
        put_spec(l, n) is Some,
    ensures
        put_spec(l, n) matches Some((after, _)) && after.tail <= l.end && (after.tail == l.tail
            + n || after.tail == u32::MAX),
{
}

/// What copying a buffer does: a buffer as large as the source's
/// allocation, with the source's headroom reserved, then the source's data
/// appended; `None` where the data does not fit. The headers are copied
/// alongside.
pub open spec fn copy_spec(src: SkbLayout) -> Option<SkbLayout> {
    let fresh = SkbLayout { headroom: 0, len: 0, tail: 0, end: src.end, mac_header: 0 };
    match put_spec(reserve_spec(fresh, headroom32(src)), src.len) {
        Some((l, _)) => Some(SkbLayout { mac_header: src.mac_header, ..l }),
        None => None,
    }
}

/// The geometry of a copy of a buffer (the data bytes themselves are
/// copied by the caller).
pub fn skb_copy_layout(src: &SkbLayout) -> (r: Option<SkbLayout>)
    ensures
        r == copy_spec(*src),
{
    let fresh = skb_layout_new(src.end);
    let reserved = skb_reserve(fresh, skb_headroom(src));
    match skb_put(reserved, src.len) {
        Some((l, _)) => Some(SkbLayout { mac_header: src.mac_header, ..l }),
        None => None,
    }
}

/// The transmit queues a device has bits for.
pub const TX_QUEUES: u16 = 32;

/// Marks a transmit queue stopped; queues past the 32nd are ignored.
pub fn tx_queue_stop(state: u32, queue_idx: u16) -> (r: u32)
    ensures
        queue_idx >= 32 ==> r == state,
        queue_idx < 32 ==> r == state | (1u32 << queue_idx),
{
    if queue_idx >= TX_QUEUES {
        return state;
    }
    state | (1u32 << queue_idx)
}

/// Marks a transmit queue running again; queues past the 32nd are ignored.
pub fn tx_queue_wake(state: u32, queue_idx: u16) -> (r: u32)
    ensures
        queue_idx >= 32 ==> r == state,
        queue_idx < 32 ==> r == state & !(1u32 << queue_idx),
{
    if queue_idx >= TX_QUEUES {
        return state;
    }
    state & !(1u32 << queue_idx)
}

/// Stopping a queue and waking it again clears its bit and leaves the
/// others as they were.
pub proof fn lemma_stop_then_wake(state: u32, q: u16)
    requires
        q < 32,
    ensures
        (state | (1u32 << q)) & !(1u32 << q) == state & !(1u32 << q),
        ((state | (1u32 << q)) & (1u32 << q)) != 0,
{
    assert((state | (1u32 << q)) & !(1u32 << q) == state & !(1u32 << q)) by (bit_vector)
        requires
            q < 32,
    ;
    assert(((state | (1u32 << q)) & (1u32 << q)) != 0) by (bit_vector)
        requires
            q < 32,
    ;
}

/// What completing a NAPI poll reports: 1 where less work was done than
/// the budget, 0 otherwise, and 0 for a negative amount of work.
pub fn napi_complete_result(work_done: i32, weight: i32) -> (r: i32)
    ensures
        r == (if work_done < 0 {
            0i32
        } else if work_done < weight {
            1i32
        } else {
            0i32
        }),
{
    if work_done < 0 {
        0
    } else if work_done < weight {
        1
    } else {
        0
    }
}

/// Registering a network device twice is refused (`-EBUSY`).
pub fn register_result(registered: bool) -> (r: i32)
    ensures
        r == (if registered {
            -16i32
        } else {
            0i32
        }),
{
    if registered {
        -16
    } else {
        0
    }
}

} // verus!
