//! Typed views over the shared memory region that the kernel exposes: the
//! registration record, the interface header, ring descriptors, slot records
//! and packet buffers. The region is a byte sequence; every view is decoded
//! from it at a checked offset.
use crate::layout::{field_i64, field_u16, field_u32, read_i64, read_u16, read_u32, splice, write_u16, write_u32};
use crate::RingId;
use vstd::arithmetic::div_mod::{lemma_mod_self_0, lemma_small_mod};
use vstd::bytes::*;
use vstd::string::StringSliceAdditionalSpecFns;
use vstd::utf8::{decode_utf8, valid_utf8};
use vstd::prelude::*;

verus! {

/// Capacity of an interface name, zero padded.
pub const IF_NAMESIZE: usize = 16;

/// Protocol version of the registration record.
pub const NETMAP_API: u32 = 11;

/// Ring selection that asks for the hardware rings only.
pub const REG_HW_RINGS_ONLY: u16 = 0x4000;

/// Bytes of the interface header before its ring offset table.
pub const IFACE_HEADER_SIZE: usize = 56;

/// Bytes of a ring descriptor before its slot array.
pub const RING_HEADER_SIZE: usize = 256;

/// Bytes of one slot record.
pub const SLOT_SIZE: usize = 16;

#[derive(Clone, Copy, Debug, PartialEq, Eq, Structural)]
pub enum NetmapError {
    DeviceOpenFailure,
    RegistrationFailure,
    MappingFailure,
    InvalidRingIndex,
    SyncFailure,
    /// An interface name that is not valid UTF-8.
    InvalidName,
    /// A header, ring, slot or buffer does not lie inside the region, or a
    /// ring's cursors are inconsistent.
    BadLayout,
}

/// Distance from `a` forward to `b` on a ring of `n` positions.
pub open spec fn ring_dist(a: int, b: int, n: int) -> int {
    if a <= b {
        b - a
    } else {
        b + n - a
    }
}

/// `head <= cur <= tail` in circular order.
pub open spec fn cursors_in_order(head: int, cur: int, tail: int, n: int) -> bool {
    ring_dist(head, cur, n) <= ring_dist(head, tail, n)
}

/// An interface name, zero padded to its fixed capacity.
#[derive(Clone, Copy, Debug)]
pub struct IfaceName(pub [u8; 16]);

/// `name` followed by zeros up to the capacity.
pub open spec fn padded_name(name: Seq<u8>) -> Seq<u8> {
    Seq::new(IF_NAMESIZE as nat, |i: int| if i < name.len() { name[i] } else { 0u8 })
}

/// Length of the text in a zero padded name: up to the first zero byte, or
/// the whole capacity if there is none.
pub open spec fn name_text_len(bytes: Seq<u8>) -> int
    decreases bytes.len(),
{
    if bytes.len() == 0 {
        0
    } else if bytes[0] == 0 {
        0
    } else {
        1 + name_text_len(bytes.drop_first())
    }
}

proof fn lemma_name_text_len(bytes: Seq<u8>, i: int)
    requires
        0 <= i <= bytes.len(),
        forall|k: int| 0 <= k < i ==> bytes[k] != 0,
    ensures
        i == bytes.len() || bytes[i] == 0 ==> name_text_len(bytes) == i,
        i < bytes.len() && bytes[i] != 0 ==> name_text_len(bytes) > i,
        name_text_len(bytes) >= 0,
    decreases bytes.len(),
{
    if i > 0 {
        lemma_name_text_len(bytes.drop_first(), i - 1);
    } else if bytes.len() > 0 && bytes[0] != 0 {
        lemma_name_text_len(bytes.drop_first(), 0);
    }
}

/// Relies on `String::from_utf8`: it succeeds exactly when the bytes are
/// valid UTF-8, and the string then holds the characters they encode.
#[verifier::external_body]
fn string_from_utf8(bytes: Vec<u8>) -> (r: Option<String>)
    ensures
        r.is_some() <==> valid_utf8(bytes@),
        r.is_some() ==> r.unwrap()@ == decode_utf8(bytes@),
{
    match String::from_utf8(bytes) {
        Ok(s) => Some(s),
        Err(_) => None,
    }
}

impl IfaceName {
    /// The name `name`, zero padded; `None` when it does not fit.
    pub fn from_bytes(name: &[u8]) -> (r: Option<IfaceName>)
        ensures
            r.is_some() <==> name@.len() <= IF_NAMESIZE,
            r.is_some() ==> r.unwrap().0@ == padded_name(name@),
    {
        let len = name.len();
        if len > IF_NAMESIZE {
            return None;
        }
        let mut buf: [u8; 16] = [0u8; 16];
        let mut i: usize = 0;
        while i < IF_NAMESIZE
            invariant
                len == name@.len(),
                len <= IF_NAMESIZE,
                i <= IF_NAMESIZE,
                forall|k: int| 0 <= k < i ==> buf@[k] == padded_name(name@)[k],
            decreases IF_NAMESIZE - i,
        {
            if i < len {
                buf[i] = name[i];
            } else {
                buf[i] = 0;
            }
            i = i + 1;
        }
        assert(buf@ =~= padded_name(name@));
        Some(IfaceName(buf))
    }

    /// Number of bytes before the first zero, or the capacity if none.
    pub fn text_len(&self) -> (n: usize)
        ensures
            n as int == name_text_len(self.0@),
            n <= IF_NAMESIZE,
    {
        let mut i: usize = 0;
        while i < IF_NAMESIZE && self.0[i] != 0
            invariant
                i <= IF_NAMESIZE,
                forall|k: int| 0 <= k < i ==> self.0@[k] != 0,
            decreases IF_NAMESIZE - i,
        {
            i = i + 1;
        }
        proof { lemma_name_text_len(self.0@, i as int); }
        i
    }

    /// The bytes of the name, without its zero padding.
    pub fn text(&self) -> (r: Vec<u8>)
        ensures
            r@ == self.0@.take(name_text_len(self.0@)),
    {
        let n = self.text_len();
        let mut v: Vec<u8> = Vec::new();
        let mut i: usize = 0;
        while i < n
            invariant
                n as int == name_text_len(self.0@),
                n <= IF_NAMESIZE,
                i <= n,
                v@ == self.0@.take(i as int),
            decreases n - i,
        {
            v.push(self.0[i]);
            i = i + 1;
            assert(v@ =~= self.0@.take(i as int));
        }
        v
    }

    /// The name as text: the bytes before the first zero, decoded as UTF-8;
    /// an error when they are not valid UTF-8.
    pub fn to_text(&self) -> (r: Result<String, NetmapError>)
        ensures
            ({
                let bytes = self.0@.take(name_text_len(self.0@));
                &&& r.is_ok() <==> valid_utf8(bytes)
                &&& r.is_ok() ==> r.unwrap()@ == decode_utf8(bytes)
                &&& r.is_err() ==> r == Err::<String, NetmapError>(NetmapError::InvalidName)
            }),
    {
        match string_from_utf8(self.text()) {
            Some(s) => Ok(s),
            None => Err(NetmapError::InvalidName),
        }
    }
}

/// One slot record: which buffer of the pool it points at, the payload
/// length and flags.
#[derive(Clone, Copy, Debug, PartialEq, Eq, Structural)]
pub struct Slot {
    pub buffer_index: u32,
    pub length: u16,
    pub flags: u16,
    pub ptr: u64,
}

/// A ring descriptor decoded from the region, with the offset it lives at.
#[derive(Clone, Copy, Debug, PartialEq, Eq, Structural)]
pub struct Ring {
    pub offset: usize,
    pub buffer_offset: i64,
    pub num_slots: u32,
    pub buffer_size: u32,
    pub ringid: u16,
    pub direction: u16,
    pub head: u32,
    pub cur: u32,
    pub tail: u32,
    pub flags: u32,
}

/// Offsets of the consumer's cursors in a ring descriptor.
pub open spec fn ring_off_head() -> int { 20 }
pub open spec fn ring_off_cur() -> int { 24 }

/// Whether a well-formed ring descriptor, slot array included, lies at `off`.
pub open spec fn ring_layout_ok(region: Seq<u8>, off: int) -> bool {
    let n = field_u32(region, off + 8) as int;
    let head = field_u32(region, off + 20) as int;
    let cur = field_u32(region, off + 24) as int;
    let tail = field_u32(region, off + 28) as int;
    &&& 0 <= off
    &&& off + RING_HEADER_SIZE <= region.len()
    &&& n > 0
    &&& head < n && cur < n && tail < n
    &&& cursors_in_order(head, cur, tail, n)
    &&& off + RING_HEADER_SIZE + SLOT_SIZE * n <= region.len()
}

/// The ring descriptor stored at `off`.
pub open spec fn ring_at(region: Seq<u8>, off: int) -> Ring {
    Ring {
        offset: off as usize,
        buffer_offset: field_i64(region, off) as i64,
        num_slots: field_u32(region, off + 8),
        buffer_size: field_u32(region, off + 12),
        ringid: field_u16(region, off + 16),
        direction: field_u16(region, off + 18),
        head: field_u32(region, off + 20),
        cur: field_u32(region, off + 24),
        tail: field_u32(region, off + 28),
        flags: field_u32(region, off + 32),
    }
}

/// The slot record stored at `off`.
pub open spec fn slot_at(region: Seq<u8>, off: int) -> Slot {
    Slot {
        buffer_index: field_u32(region, off),
        length: field_u16(region, off + 4),
        flags: field_u16(region, off + 6),
        ptr: field_i64(region, off + 8) as u64,
    }
}

impl Ring {
    pub open spec fn wf(&self) -> bool {
        &&& self.num_slots > 0
        &&& self.head < self.num_slots
        &&& self.cur < self.num_slots
        &&& self.tail < self.num_slots
        &&& cursors_in_order(self.head as int, self.cur as int, self.tail as int, self.num_slots as int)
    }

    /// The ring after one claim: `cur` one position further, if a slot was
    /// ready.
    pub open spec fn claimed(&self) -> Ring {
        if self.cur == self.tail {
            *self
        } else {
            Ring { cur: ((self.cur + 1) % (self.num_slots as int)) as u32, ..*self }
        }
    }

    /// The ring after a reclaim: `head` moved up to `cur`.
    pub open spec fn reclaimed(&self) -> Ring {
        Ring { head: self.cur, ..*self }
    }

    /// The ring and its slot array lie in a region of `len` bytes.
    pub open spec fn fits(&self, len: int) -> bool {
        self.offset + RING_HEADER_SIZE + SLOT_SIZE * self.num_slots <= len
    }

    pub open spec fn slot_offset(&self, index: int) -> int {
        self.offset + RING_HEADER_SIZE + SLOT_SIZE * index
    }

    /// Where in the region the buffer with index `buffer_index` starts.
    pub open spec fn buffer_start(&self, buffer_index: int) -> int {
        self.offset + self.buffer_offset + buffer_index * self.buffer_size
    }

    /// Decodes the ring descriptor at `offset`, checking that it and its slot
    /// array lie inside the region and that its cursors are consistent.
    pub fn load(region: &[u8], offset: usize) -> (r: Result<Ring, NetmapError>)
        ensures
            r.is_ok() <==> ring_layout_ok(region@, offset as int),
            r.is_ok() ==> r.unwrap() == ring_at(region@, offset as int),
            r.is_ok() ==> r.unwrap().wf() && r.unwrap().fits(region@.len() as int),
            r.is_err() ==> r == Err::<Ring, NetmapError>(NetmapError::BadLayout),
    {
        let len = region.len();
        if offset > len || len - offset < RING_HEADER_SIZE {
            return Err(NetmapError::BadLayout);
        }
        let num_slots = read_u32(region, offset + 8);
        let head = read_u32(region, offset + 20);
        let cur = read_u32(region, offset + 24);
        let tail = read_u32(region, offset + 28);
        if num_slots == 0 || head >= num_slots || cur >= num_slots || tail >= num_slots {
            return Err(NetmapError::BadLayout);
        }
        let d_cur: u32 = if head <= cur { cur - head } else { cur + (num_slots - head) };
        let d_tail: u32 = if head <= tail { tail - head } else { tail + (num_slots - head) };
        if d_cur > d_tail {
            return Err(NetmapError::BadLayout);
        }
        if (offset as u128) + (RING_HEADER_SIZE as u128) + (SLOT_SIZE as u128) * (num_slots as u128) > len as u128 {
            return Err(NetmapError::BadLayout);
        }
        Ok(Ring {
            offset,
            buffer_offset: read_i64(region, offset),
            num_slots,
            buffer_size: read_u32(region, offset + 12),
            ringid: read_u16(region, offset + 16),
            direction: read_u16(region, offset + 18),
            head,
            cur,
            tail,
            flags: read_u32(region, offset + 32),
        })
    }

    /// Whether a slot is ready to be claimed.
    pub fn has_next(&self) -> (r: bool)
        ensures
            r <==> self.cur != self.tail,
    {
        self.cur != self.tail
    }

    /// Claims the slot at `cur` and advances `cur` by one position; nothing
    /// when `cur` has reached `tail`.
    pub fn next(&mut self) -> (r: Option<u32>)
        requires
            old(self).wf(),
        ensures
            final(self).wf(),
            *final(self) == old(self).claimed(),
            old(self).cur == old(self).tail ==> r.is_none() && *final(self) == *old(self),
            old(self).cur != old(self).tail ==> {
                &&& r == Some(old(self).cur)
                &&& final(self).cur as int == (old(self).cur as int + 1) % (old(self).num_slots as int)
                &&& *final(self) == (Ring { cur: final(self).cur, ..*old(self) })
            },
    {
        if self.cur == self.tail {
            None
        } else {
            let prev = self.cur;
            let n = self.num_slots;
            proof {
                if prev + 1 < n {
                    lemma_small_mod((prev + 1) as nat, n as nat);
                } else {
                    lemma_mod_self_0(n as int);
                }
            }
            self.cur = if prev + 1 == n { 0 } else { prev + 1 };
            Some(prev)
        }
    }

    /// Hands every claimed slot back to the kernel: `head` becomes `cur`.
    pub fn reclaim(&mut self)
        requires
            old(self).wf(),
        ensures
            final(self).wf(),
            *final(self) == old(self).reclaimed(),
    {
        if self.head != self.cur {
            self.head = self.cur;
        }
    }

    /// Writes the cursors that the consumer owns, `head` and `cur`, back to
    /// the descriptor in the region; every other byte stays.
    pub fn store_cursors(&self, region: &mut [u8])
        requires
            self.offset + RING_HEADER_SIZE <= old(region)@.len(),
        ensures
            final(region)@ == splice(
                splice(old(region)@, self.offset + 20, spec_u32_to_le_bytes(self.head)),
                self.offset + 24,
                spec_u32_to_le_bytes(self.cur),
            ),
            final(region)@.len() == old(region)@.len(),
            field_u32(final(region)@, self.offset + 20) == self.head,
            field_u32(final(region)@, self.offset + 24) == self.cur,
    {
        let len = region.len();
        assert(self.offset + 28 <= len);
        proof { lemma_auto_spec_u32_to_from_le_bytes(); }
        write_u32(region, self.offset + 20, self.head);
        let ghost mid = region@;
        write_u32(region, self.offset + 24, self.cur);
        assert(region@.subrange(self.offset + 20, self.offset + 24) =~= mid.subrange(
            self.offset + 20,
            self.offset + 24,
        ));
    }

    /// The slot record at position `index`.
    pub fn slot(&self, region: &[u8], index: u32) -> (r: Slot)
        requires
            index < self.num_slots,
            self.fits(region@.len() as int),
        ensures
            r == slot_at(region@, self.slot_offset(index as int)),
    {
        let len = region.len();
        assert(self.slot_offset(index as int) + SLOT_SIZE <= len);
        let off = self.offset + RING_HEADER_SIZE + SLOT_SIZE * (index as usize);
        Slot {
            buffer_index: read_u32(region, off),
            length: read_u16(region, off + 4),
            flags: read_u16(region, off + 6),
            ptr: read_i64(region, off + 8) as u64,
        }
    }

    /// Writes the length and flags of the slot at position `index`, as a
    /// producer does before handing the slot to the kernel.
    pub fn set_slot(&self, region: &mut [u8], index: u32, length: u16, flags: u16)
        requires
            index < self.num_slots,
            self.fits(old(region)@.len() as int),
        ensures
            final(region)@ == splice(
                splice(old(region)@, self.slot_offset(index as int) + 4, spec_u16_to_le_bytes(length)),
                self.slot_offset(index as int) + 6,
                spec_u16_to_le_bytes(flags),
            ),
            final(region)@.len() == old(region)@.len(),
            slot_at(final(region)@, self.slot_offset(index as int)) == (Slot {
                length,
                flags,
                ..slot_at(old(region)@, self.slot_offset(index as int))
            }),
    {
        let len = region.len();
        assert(self.slot_offset(index as int) + SLOT_SIZE <= len);
        let off = self.offset + RING_HEADER_SIZE + SLOT_SIZE * (index as usize);
        let ghost o = off as int;
        proof { lemma_auto_spec_u16_to_from_le_bytes(); }
        write_u16(region, off + 4, length);
        let ghost mid = region@;
        write_u16(region, off + 6, flags);
        assert(region@.subrange(o, o + 4) =~= old(region)@.subrange(o, o + 4));
        assert(region@.subrange(o + 4, o + 6) =~= mid.subrange(o + 4, o + 6));
        assert(region@.subrange(o + 8, o + 16) =~= old(region)@.subrange(o + 8, o + 16));
    }

    /// The byte range `(start, len)` of the buffer with index `buffer_index`:
    /// `len` is the ring's buffer size and `start` lies `buffer_index` buffers
    /// past the pool; an error when the range leaves a region of `region_len`
    /// bytes.
    pub fn buffer(&self, region_len: usize, buffer_index: u32) -> (r: Result<(usize, usize), NetmapError>)
        ensures
            r.is_ok() <==> 0 <= self.buffer_start(buffer_index as int)
                && self.buffer_start(buffer_index as int) + self.buffer_size <= region_len,
            r.is_ok() ==> r.unwrap().0 as int == self.buffer_start(buffer_index as int)
                && r.unwrap().1 == self.buffer_size as usize,
            r.is_err() ==> r == Err::<(usize, usize), NetmapError>(NetmapError::BadLayout),
    {
        let ghost bi = buffer_index as int;
        let ghost bs = self.buffer_size as int;
        assert(0 <= bi * bs <= 0xffff_ffff * 0xffff_ffff) by (nonlinear_arith)
            requires
                0 <= bi <= 0xffff_ffff,
                0 <= bs <= 0xffff_ffff,
        ;
        let start: i128 = (self.offset as i128) + (self.buffer_offset as i128)
            + (buffer_index as i128) * (self.buffer_size as i128);
        if start < 0 || start + (self.buffer_size as i128) > region_len as i128 {
            return Err(NetmapError::BadLayout);
        }
        Ok((start as usize, self.buffer_size as usize))
    }

    /// The byte range of the buffer that the slot at position `index` points at.
    pub fn buffer_from_slot(&self, region: &[u8], index: u32) -> (r: Result<(usize, usize), NetmapError>)
        requires
            index < self.num_slots,
            self.fits(region@.len() as int),
        ensures
            ({
                let bi = slot_at(region@, self.slot_offset(index as int)).buffer_index as int;
                &&& r.is_ok() <==> 0 <= self.buffer_start(bi) && self.buffer_start(bi) + self.buffer_size <= region@.len()
                &&& r.is_ok() ==> r.unwrap().0 as int == self.buffer_start(bi) && r.unwrap().1 == self.buffer_size as usize
                &&& r.is_err() ==> r == Err::<(usize, usize), NetmapError>(NetmapError::BadLayout)
            }),
    {
        let s = self.slot(region, index);
        self.buffer(region.len(), s.buffer_index)
    }
}

/// The interface header, decoded from the region.
#[derive(Clone, Copy, Debug)]
pub struct Iface {
    pub offset: usize,
    pub name: IfaceName,
    pub version: u32,
    pub flags: u32,
    pub tx_rings: u32,
    pub rx_rings: u32,
}

/// Offset of the ring offset table's entry `pos` for a header at `off`.
pub open spec fn ring_table_entry(off: int, pos: int) -> int {
    off + IFACE_HEADER_SIZE + 8 * pos
}

/// Whether the header at `off` and its offset table, with one entry per
/// hardware ring and one host ring per direction, lie inside the region.
pub open spec fn iface_layout_ok(region: Seq<u8>, off: int) -> bool {
    &&& 0 <= off
    &&& off + IFACE_HEADER_SIZE <= region.len()
    &&& ring_table_entry(off, field_u32(region, off + 24) + field_u32(region, off + 28) + 2) <= region.len()
}

/// Position in the ring offset table of the ring `id`: transmit rings come
/// first, then one host ring, then the receive rings.
pub open spec fn ring_table_position(tx_rings: u32, id: RingId) -> int {
    match id {
        RingId::Tx(i) => i as int,
        RingId::Rx(i) => tx_rings + 1 + i,
    }
}

impl Iface {
    /// The header lies, with its offset table, in a region of `len` bytes.
    pub open spec fn fits(&self, len: int) -> bool {
        ring_table_entry(self.offset as int, self.tx_rings + self.rx_rings + 2) <= len
    }

    pub open spec fn has_ring(&self, id: RingId) -> bool {
        match id {
            RingId::Tx(i) => i < self.tx_rings,
            RingId::Rx(i) => i < self.rx_rings,
        }
    }

    /// Where the ring `id` starts in the region, from the offset table.
    pub open spec fn ring_offset_in(&self, region: Seq<u8>, id: RingId) -> int {
        self.offset + field_i64(region, ring_table_entry(self.offset as int, ring_table_position(self.tx_rings, id)))
    }

    /// Decodes the interface header at `offset`.
    pub fn load(region: &[u8], offset: usize) -> (r: Result<Iface, NetmapError>)
        ensures
            r.is_ok() <==> iface_layout_ok(region@, offset as int),
            r.is_ok() ==> {
                let h = r.unwrap();
                &&& h.offset == offset
                &&& h.name.0@ == region@.subrange(offset as int, offset + IF_NAMESIZE)
                &&& h.version == field_u32(region@, offset + 16)
                &&& h.flags == field_u32(region@, offset + 20)
                &&& h.tx_rings == field_u32(region@, offset + 24)
                &&& h.rx_rings == field_u32(region@, offset + 28)
                &&& h.fits(region@.len() as int)
            },
            r.is_err() ==> r == Err::<Iface, NetmapError>(NetmapError::BadLayout),
    {
        let len = region.len();
        if offset > len || len - offset < IFACE_HEADER_SIZE {
            return Err(NetmapError::BadLayout);
        }
        let tx_rings = read_u32(region, offset + 24);
        let rx_rings = read_u32(region, offset + 28);
        let table_end: u128 = (offset as u128) + (IFACE_HEADER_SIZE as u128) + 8 * ((tx_rings as u128) + (rx_rings as u128) + 2);
        if table_end > len as u128 {
            return Err(NetmapError::BadLayout);
        }
        let mut buf: [u8; 16] = [0u8; 16];
        let mut i: usize = 0;
        while i < IF_NAMESIZE
            invariant
                offset + IFACE_HEADER_SIZE <= len,
                len == region@.len(),
                i <= IF_NAMESIZE,
                forall|k: int| 0 <= k < i ==> buf@[k] == region@[offset + k],
            decreases IF_NAMESIZE - i,
        {
            buf[i] = region[offset + i];
            i = i + 1;
        }
        assert(buf@ =~= region@.subrange(offset as int, offset + IF_NAMESIZE));
        Ok(Iface {
            offset,
            name: IfaceName(buf),
            version: read_u32(region, offset + 16),
            flags: read_u32(region, offset + 20),
            tx_rings,
            rx_rings,
        })
    }

    /// Position of the ring `id` in the offset table; an error when the
    /// interface has no such ring.
    pub fn ring_position(&self, id: RingId) -> (r: Result<u64, NetmapError>)
        ensures
            r.is_ok() <==> self.has_ring(id),
            r.is_ok() ==> r.unwrap() as int == ring_table_position(self.tx_rings, id),
            r.is_err() ==> r == Err::<u64, NetmapError>(NetmapError::InvalidRingIndex),
    {
        match id {
            RingId::Tx(i) => {
                if i < self.tx_rings {
                    Ok(i as u64)
                } else {
                    Err(NetmapError::InvalidRingIndex)
                }
            },
            RingId::Rx(i) => {
                if i < self.rx_rings {
                    Ok(self.tx_rings as u64 + 1 + i as u64)
                } else {
                    Err(NetmapError::InvalidRingIndex)
                }
            },
        }
    }

    /// Decodes the ring `id`, located through the offset table.
    pub fn ring(&self, region: &[u8], id: RingId) -> (r: Result<Ring, NetmapError>)
        requires
            self.fits(region@.len() as int),
        ensures
            !self.has_ring(id) ==> r == Err::<Ring, NetmapError>(NetmapError::InvalidRingIndex),
            self.has_ring(id) ==> {
                let off = self.ring_offset_in(region@, id);
                &&& r.is_ok() <==> 0 <= off && ring_layout_ok(region@, off)
                &&& r.is_ok() ==> r.unwrap() == ring_at(region@, off)
                    && r.unwrap().wf() && r.unwrap().fits(region@.len() as int)
                &&& r.is_err() ==> r == Err::<Ring, NetmapError>(NetmapError::BadLayout)
            },
    {
        let pos = self.ring_position(id)?;
        let len = region.len();
        let entry = self.offset + IFACE_HEADER_SIZE + 8 * (pos as usize);
        let rel = read_i64(region, entry);
        let off: i128 = (self.offset as i128) + (rel as i128);
        if off < 0 || off > len as i128 {
            return Err(NetmapError::BadLayout);
        }
        Ring::load(region, off as usize)
    }

    /// The transmit ring `index`.
    pub fn tx_ring(&self, region: &[u8], index: u32) -> (r: Result<Ring, NetmapError>)
        requires
            self.fits(region@.len() as int),
        ensures
            index >= self.tx_rings ==> r == Err::<Ring, NetmapError>(NetmapError::InvalidRingIndex),
            index < self.tx_rings ==> {
                let off = self.ring_offset_in(region@, RingId::Tx(index));
                &&& r.is_ok() <==> 0 <= off && ring_layout_ok(region@, off)
                &&& r.is_ok() ==> r.unwrap() == ring_at(region@, off)
            },
    {
        self.ring(region, RingId::Tx(index))
    }

    /// The receive ring `index`.
    pub fn rx_ring(&self, region: &[u8], index: u32) -> (r: Result<Ring, NetmapError>)
        requires
            self.fits(region@.len() as int),
        ensures
            index >= self.rx_rings ==> r == Err::<Ring, NetmapError>(NetmapError::InvalidRingIndex),
            index < self.rx_rings ==> {
                let off = self.ring_offset_in(region@, RingId::Rx(index));
                &&& r.is_ok() <==> 0 <= off && ring_layout_ok(region@, off)
                &&& r.is_ok() ==> r.unwrap() == ring_at(region@, off)
            },
    {
        self.ring(region, RingId::Rx(index))
    }
}

/// A reserved field: it holds its place in a record and means nothing.
#[derive(Clone, Copy, Debug)]
pub struct Nop<T>(pub T);

/// The registration record handed to the kernel, which fills in the
/// negotiated counts, the header offset and the size of the shared memory.
#[derive(Clone, Copy, Debug)]
pub struct Request {
    pub name: IfaceName,
    pub version: u32,
    pub offset: u32,
    pub memory_size: u32,
    pub tx_slots: u32,
    pub rx_slots: u32,
    pub tx_rings: u16,
    pub rx_rings: u16,
    pub ring_id: u16,
    pub cmd: u16,
    pub arg1: u16,
    pub arg2: u16,
    pub arg3: u32,
    pub flags: u32,
    pub spare: Nop<u32>,
}

impl Request {
    /// A registration record for `interface_name`, asking for the hardware
    /// rings at the supported protocol version; every other field zero. An
    /// error when the name does not fit the name field.
    pub fn new(interface_name: &str) -> (r: Result<Request, NetmapError>)
        ensures
            r.is_ok() <==> interface_name.spec_bytes().len() <= IF_NAMESIZE,
            r.is_ok() ==> {
                let q = r.unwrap();
                &&& q.name.0@ == padded_name(interface_name.spec_bytes())
                &&& q.version == NETMAP_API
                &&& q.ring_id == REG_HW_RINGS_ONLY
                &&& q.offset == 0 && q.memory_size == 0
                &&& q.tx_slots == 0 && q.rx_slots == 0 && q.tx_rings == 0 && q.rx_rings == 0
                &&& q.cmd == 0 && q.arg1 == 0 && q.arg2 == 0 && q.arg3 == 0
                &&& q.flags == 0 && q.spare.0 == 0
            },
            r.is_err() ==> r == Err::<Request, NetmapError>(NetmapError::RegistrationFailure),
    {
        match IfaceName::from_bytes(interface_name.as_bytes()) {
            None => Err(NetmapError::RegistrationFailure),
            Some(name) => Ok(Request {
                name,
                version: NETMAP_API,
                offset: 0,
                memory_size: 0,
                tx_slots: 0,
                rx_slots: 0,
                tx_rings: 0,
                rx_rings: 0,
                ring_id: REG_HW_RINGS_ONLY,
                cmd: 0,
                arg1: 0,
                arg2: 0,
                arg3: 0,
                flags: 0,
                spare: Nop(0),
            }),
        }
    }

    /// Checks a mapping of `region_len` bytes against the negotiated record:
    /// its length is the negotiated memory size and the interface header
    /// lies inside it.
    pub fn check_mapping(&self, region_len: usize) -> (r: Result<(), NetmapError>)
        ensures
            r.is_ok() <==> region_len == self.memory_size
                && self.offset + IFACE_HEADER_SIZE <= self.memory_size,
            r.is_err() ==> r == Err::<(), NetmapError>(NetmapError::MappingFailure),
    {
        if region_len as u64 != self.memory_size as u64
            || (self.offset as u64) + (IFACE_HEADER_SIZE as u64) > self.memory_size as u64 {
            Err(NetmapError::MappingFailure)
        } else {
            Ok(())
        }
    }
}

} // verus!
