//! Zero-copy packet I/O over kernel-shared ring buffers: the binary view of
//! the shared region, the ring cursor protocol, and the decisions of a
//! non-blocking stream of packet slots.
use vstd::bytes::spec_u32_to_le_bytes;
use vstd::prelude::*;

pub mod laws;
pub mod layout;
pub mod sys;

use crate::sys::{Iface, NetmapError, Ring};

verus! {

/// Which ring of an interface a stream is drawn from: a transmit or a
/// receive ring, with its index among the rings of that direction.
#[derive(Clone, Copy, Debug, PartialEq, Eq, Structural)]
pub enum RingId {
    Tx(u32),
    Rx(u32),
}

/// The kernel call that advances a ring's `tail`, one per direction.
#[derive(Clone, Copy, Debug, PartialEq, Eq, Structural)]
pub enum SyncKind {
    Tx,
    Rx,
}

/// What a stream poll asks of its driver.
#[derive(Clone, Copy, Debug, PartialEq, Eq, Structural)]
pub enum PollAction {
    /// The slot at this position was claimed: hand it out.
    Deliver(u32),
    /// The ring is empty: issue this sync, re-read the ring and continue
    /// with `poll_after_sync`.
    Sync(SyncKind),
    /// Still empty after the sync: wait for the descriptor to be readable.
    WaitReadable,
    /// The sync failed: report this error on the stream.
    Fail(NetmapError),
}

pub open spec fn spec_sync_kind(id: RingId) -> SyncKind {
    match id {
        RingId::Tx(_) => SyncKind::Tx,
        RingId::Rx(_) => SyncKind::Rx,
    }
}

/// The sync that advances the ring `id`: transmit sync for a transmit ring,
/// receive sync for a receive ring.
pub fn sync_kind(id: RingId) -> (r: SyncKind)
    ensures
        r == spec_sync_kind(id),
{
    match id {
        RingId::Tx(_) => SyncKind::Tx,
        RingId::Rx(_) => SyncKind::Rx,
    }
}

/// First step of a poll: claim a ready slot, or ask for the sync that
/// matches the ring's direction.
pub fn poll_start(id: RingId, ring: &mut Ring) -> (r: PollAction)
    requires
        old(ring).wf(),
    ensures
        final(ring).wf(),
        *final(ring) == old(ring).claimed(),
        old(ring).cur != old(ring).tail ==> r == PollAction::Deliver(old(ring).cur),
        old(ring).cur == old(ring).tail ==> r == PollAction::Sync(spec_sync_kind(id)),
{
    if ring.has_next() {
        match ring.next() {
            Some(index) => PollAction::Deliver(index),
            None => PollAction::Sync(sync_kind(id)),
        }
    } else {
        PollAction::Sync(sync_kind(id))
    }
}

/// Second step of a poll, on the ring as re-read after the sync: a failed
/// sync is an error; otherwise claim a ready slot, or wait for readiness
/// when the ring is still empty.
pub fn poll_after_sync(ring: &mut Ring, synced: Result<(), NetmapError>) -> (r: PollAction)
    requires
        old(ring).wf(),
    ensures
        final(ring).wf(),
        synced.is_err() ==> r == PollAction::Fail(NetmapError::SyncFailure) && *final(ring) == *old(ring),
        synced.is_ok() ==> *final(ring) == old(ring).claimed(),
        synced.is_ok() && old(ring).cur != old(ring).tail ==> r == PollAction::Deliver(old(ring).cur),
        r == PollAction::WaitReadable <==> synced.is_ok() && old(ring).cur == old(ring).tail,
{
    match synced {
        Err(_) => PollAction::Fail(NetmapError::SyncFailure),
        Ok(()) => match ring.next() {
            Some(index) => PollAction::Deliver(index),
            None => PollAction::WaitReadable,
        },
    }
}

/// Claims the next slot of the ring `id` in the region and stores the
/// advanced `cur`; `Ok(None)` when the ring is empty.
pub fn claim(region: &mut [u8], iface: &Iface, id: RingId) -> (r: Result<Option<u32>, NetmapError>)
    requires
        iface.fits(old(region)@.len() as int),
    ensures
        final(region)@.len() == old(region)@.len(),
        !iface.has_ring(id) ==> r == Err::<Option<u32>, NetmapError>(NetmapError::InvalidRingIndex)
            && final(region)@ == old(region)@,
        iface.has_ring(id) ==> {
            let off = iface.ring_offset_in(old(region)@, id);
            let ring = sys::ring_at(old(region)@, off);
            &&& r.is_ok() <==> 0 <= off && sys::ring_layout_ok(old(region)@, off)
            &&& r.is_err() ==> final(region)@ == old(region)@
            &&& r.is_ok() ==> {
                &&& r.unwrap() == (if ring.cur == ring.tail { None } else { Some(ring.cur) })
                &&& layout::field_u32(final(region)@, off + sys::ring_off_cur()) == ring.claimed().cur
                &&& layout::field_u32(final(region)@, off + sys::ring_off_head()) == ring.head
                &&& final(region)@ == layout::splice(
                    layout::splice(old(region)@, off + sys::ring_off_head(), spec_u32_to_le_bytes(ring.head)),
                    off + sys::ring_off_cur(),
                    spec_u32_to_le_bytes(ring.claimed().cur),
                )
            }
        },
{
    let _len = region.len();
    let mut ring = iface.ring(region, id)?;
    let r = ring.next();
    ring.store_cursors(region);
    Ok(r)
}

/// Hands the claimed slots of the ring `id`, and of no other, back to the
/// kernel: its stored `head` becomes its `cur`.
pub fn release(region: &mut [u8], iface: &Iface, id: RingId) -> (r: Result<(), NetmapError>)
    requires
        iface.fits(old(region)@.len() as int),
    ensures
        final(region)@.len() == old(region)@.len(),
        !iface.has_ring(id) ==> r == Err::<(), NetmapError>(NetmapError::InvalidRingIndex)
            && final(region)@ == old(region)@,
        iface.has_ring(id) ==> {
            let off = iface.ring_offset_in(old(region)@, id);
            let ring = sys::ring_at(old(region)@, off);
            &&& r.is_ok() <==> 0 <= off && sys::ring_layout_ok(old(region)@, off)
            &&& r.is_err() ==> final(region)@ == old(region)@
            &&& r.is_ok() ==> {
                &&& layout::field_u32(final(region)@, off + sys::ring_off_head()) == ring.cur
                &&& layout::field_u32(final(region)@, off + sys::ring_off_cur()) == ring.cur
                &&& final(region)@ == layout::splice(
                    layout::splice(old(region)@, off + sys::ring_off_head(), spec_u32_to_le_bytes(ring.cur)),
                    off + sys::ring_off_cur(),
                    spec_u32_to_le_bytes(ring.cur),
                )
            }
        },
{
    let _len = region.len();
    let mut ring = iface.ring(region, id)?;
    ring.reclaim();
    ring.store_cursors(region);
    Ok(())
}

/// A claimed slot: the ring it was drawn from and its position there. It is
/// released through the same ring.
#[derive(Clone, Copy, Debug, PartialEq, Eq, Structural)]
pub struct SlotRef {
    pub ring: RingId,
    pub index: u32,
}

impl SlotRef {
    /// The byte range of this slot's packet buffer in the region.
    pub fn buffer_range(&self, region: &[u8], iface: &Iface) -> (r: Result<(usize, usize), NetmapError>)
        requires
            iface.fits(region@.len() as int),
        ensures
            !iface.has_ring(self.ring) ==> r == Err::<(usize, usize), NetmapError>(NetmapError::InvalidRingIndex),
            iface.has_ring(self.ring) ==> {
                let off = iface.ring_offset_in(region@, self.ring);
                let ring = sys::ring_at(region@, off);
                let bi = sys::slot_at(region@, ring.slot_offset(self.index as int)).buffer_index as int;
                &&& r.is_ok() <==> 0 <= off && sys::ring_layout_ok(region@, off) && self.index < ring.num_slots
                    && 0 <= ring.buffer_start(bi) && ring.buffer_start(bi) + ring.buffer_size <= region@.len()
                &&& r.is_ok() ==> r.unwrap().0 as int == ring.buffer_start(bi) && r.unwrap().1 == ring.buffer_size as usize
            },
    {
        let ring = iface.ring(region, self.ring)?;
        if self.index >= ring.num_slots {
            return Err(NetmapError::BadLayout);
        }
        ring.buffer_from_slot(region, self.index)
    }

    /// Releases this slot's ring: see `release`.
    pub fn release(&self, region: &mut [u8], iface: &Iface) -> (r: Result<(), NetmapError>)
        requires
            iface.fits(old(region)@.len() as int),
        ensures
            final(region)@.len() == old(region)@.len(),
            !iface.has_ring(self.ring) ==> r == Err::<(), NetmapError>(NetmapError::InvalidRingIndex),
            iface.has_ring(self.ring) ==> {
                let off = iface.ring_offset_in(old(region)@, self.ring);
                let ring = sys::ring_at(old(region)@, off);
                &&& r.is_ok() <==> 0 <= off && sys::ring_layout_ok(old(region)@, off)
                &&& r.is_ok() ==> layout::field_u32(final(region)@, off + sys::ring_off_head()) == ring.cur
            },
    {
        release(region, iface, self.ring)
    }
}

} // verus!
