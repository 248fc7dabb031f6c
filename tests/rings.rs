use netmap::laws::RingOp;
use netmap::layout::{read_i64, read_u16, read_u32, write_u16, write_u32};
use netmap::sys::{Iface, IfaceName, NetmapError, Request, Ring, IF_NAMESIZE, NETMAP_API, REG_HW_RINGS_ONLY};
use netmap::{claim, poll_after_sync, poll_start, release, sync_kind, PollAction, RingId, SlotRef, SyncKind};

const TX_RING: usize = 128;
const RX_RING: usize = 448;
const TX_POOL: usize = 1024;
const RX_POOL: usize = 1280;
const REGION: usize = 1536;
const BUF: u32 = 64;

fn put32(r: &mut [u8], off: usize, v: u32) {
    r[off..off + 4].copy_from_slice(&v.to_le_bytes());
}

fn put64(r: &mut [u8], off: usize, v: i64) {
    r[off..off + 8].copy_from_slice(&v.to_le_bytes());
}

fn get32(r: &[u8], off: usize) -> u32 {
    u32::from_le_bytes([r[off], r[off + 1], r[off + 2], r[off + 3]])
}

fn put_ring(r: &mut [u8], at: usize, pool: usize, head: u32, cur: u32, tail: u32) {
    put64(r, at, pool as i64 - at as i64);
    put32(r, at + 8, 4);
    put32(r, at + 12, BUF);
    put32(r, at + 20, head);
    put32(r, at + 24, cur);
    put32(r, at + 28, tail);
    for i in 0..4u32 {
        // slots point at the pool's buffers in reverse order
        put32(r, at + 256 + 16 * i as usize, 3 - i);
    }
}

/// A region as the kernel lays it out: one transmit and one receive ring of
/// four slots each, with a host ring entry between them.
fn sim_region(tx: (u32, u32, u32), rx: (u32, u32, u32)) -> Vec<u8> {
    let mut r = vec![0u8; REGION];
    r[0..4].copy_from_slice(b"eth0");
    put32(&mut r, 16, NETMAP_API);
    put32(&mut r, 24, 1);
    put32(&mut r, 28, 1);
    put64(&mut r, 56, TX_RING as i64);
    put64(&mut r, 72, RX_RING as i64);
    put_ring(&mut r, TX_RING, TX_POOL, tx.0, tx.1, tx.2);
    put_ring(&mut r, RX_RING, RX_POOL, rx.0, rx.1, rx.2);
    r
}

#[test]
fn it_works() {}

#[test]
fn three_claims_then_empty_then_reclaim() {
    let region = sim_region((0, 0, 3), (0, 0, 0));
    let iface = Iface::load(&region, 0).unwrap();
    let mut ring = iface.tx_ring(&region, 0).unwrap();
    assert_eq!((ring.head, ring.cur, ring.tail, ring.num_slots), (0, 0, 3, 4));
    assert_eq!(ring.next(), Some(0));
    assert_eq!(ring.next(), Some(1));
    assert_eq!(ring.next(), Some(2));
    assert!(!ring.has_next());
    assert_eq!(ring.next(), None);
    assert_eq!(ring.cur, 3);
    ring.reclaim();
    assert_eq!(ring.head, 3);
}

#[test]
fn claim_wraps_around() {
    let region = sim_region((3, 3, 1), (0, 0, 0));
    let iface = Iface::load(&region, 0).unwrap();
    let mut ring = iface.tx_ring(&region, 0).unwrap();
    assert_eq!(ring.next(), Some(3));
    assert_eq!(ring.cur, 0);
    assert_eq!(ring.next(), Some(0));
    assert_eq!(ring.next(), None);
}

#[test]
fn reclaim_twice_is_reclaim_once() {
    let region = sim_region((0, 2, 3), (0, 0, 0));
    let iface = Iface::load(&region, 0).unwrap();
    let mut once = iface.tx_ring(&region, 0).unwrap();
    once.reclaim();
    let mut twice = once;
    twice.reclaim();
    assert_eq!(once, twice);
    assert_eq!(twice.head, 2);
}

#[test]
fn ring_ops_keep_order_on_values() {
    let region = sim_region((1, 1, 0), (0, 0, 0));
    let iface = Iface::load(&region, 0).unwrap();
    let mut ring = iface.tx_ring(&region, 0).unwrap();
    let ops = [RingOp::Claim, RingOp::Claim, RingOp::Reclaim, RingOp::Claim, RingOp::Claim, RingOp::Reclaim];
    for op in ops {
        match op {
            RingOp::Claim => {
                ring.next();
            }
            RingOp::Reclaim => ring.reclaim(),
        }
        let n = ring.num_slots;
        let dist = |a: u32, b: u32| (b + n - a) % n;
        assert!(dist(ring.head, ring.cur) <= dist(ring.head, ring.tail));
    }
    assert_eq!((ring.head, ring.cur, ring.tail), (0, 0, 0));
}

#[test]
fn buffer_resolution() {
    let region = sim_region((0, 0, 3), (0, 0, 0));
    let iface = Iface::load(&region, 0).unwrap();
    let ring = iface.tx_ring(&region, 0).unwrap();
    let slot = ring.slot(&region, 1);
    assert_eq!(slot.buffer_index, 2);
    assert_eq!(ring.buffer_from_slot(&region, 1), Ok((TX_POOL + 2 * BUF as usize, BUF as usize)));
    assert_eq!(ring.buffer(REGION, 3), Ok((TX_POOL + 3 * BUF as usize, 64)));
    assert_eq!(ring.buffer(REGION, 100), Err(NetmapError::BadLayout));
}

#[test]
fn ring_table_positions() {
    let region = sim_region((0, 0, 0), (0, 0, 0));
    let iface = Iface::load(&region, 0).unwrap();
    assert_eq!(iface.tx_rings, 1);
    assert_eq!(iface.rx_rings, 1);
    assert_eq!(iface.name.text(), b"eth0".to_vec());
    assert_eq!(iface.ring_position(RingId::Tx(0)), Ok(0));
    assert_eq!(iface.ring_position(RingId::Rx(0)), Ok(2));
    assert_eq!(iface.ring_position(RingId::Tx(1)), Err(NetmapError::InvalidRingIndex));
    assert_eq!(iface.rx_ring(&region, 1), Err(NetmapError::InvalidRingIndex));
    assert_eq!(iface.rx_ring(&region, 0).unwrap().offset, RX_RING);
}

#[test]
fn bad_layouts_are_errors() {
    let region = sim_region((0, 0, 0), (0, 0, 0));
    assert_eq!(Iface::load(&region, REGION - 10).err(), Some(NetmapError::BadLayout));
    assert_eq!(Ring::load(&region, REGION - 100), Err(NetmapError::BadLayout));
    // cur beyond tail in ring order
    let bad = sim_region((0, 3, 1), (0, 0, 0));
    assert_eq!(Ring::load(&bad, TX_RING), Err(NetmapError::BadLayout));
    let mut zero = sim_region((0, 0, 0), (0, 0, 0));
    put32(&mut zero, TX_RING + 8, 0);
    assert_eq!(Ring::load(&zero, TX_RING), Err(NetmapError::BadLayout));
}

#[test]
fn request_with_longest_name() {
    let name = "abcdefghijklmnop";
    assert_eq!(name.len(), IF_NAMESIZE);
    let req = Request::new(name).unwrap();
    assert_eq!(&req.name.0, name.as_bytes());
    assert_eq!(req.name.text(), name.as_bytes().to_vec());
    assert_eq!(req.version, NETMAP_API);
    assert_eq!(req.ring_id, REG_HW_RINGS_ONLY);
    assert_eq!((req.offset, req.memory_size, req.spare.0), (0, 0, 0));
    assert!(Request::new("abcdefghijklmnopq").is_err());
    assert_eq!(Request::new("abcdefghijklmnopq").err(), Some(NetmapError::RegistrationFailure));
}

#[test]
fn request_pads_short_name() {
    let req = Request::new("em1").unwrap();
    let mut expected = [0u8; 16];
    expected[..3].copy_from_slice(b"em1");
    assert_eq!(req.name.0, expected);
    assert_eq!(req.name.text_len(), 3);
    assert_eq!(IfaceName::from_bytes(&[1u8; 17]).is_none(), true);
}

#[test]
fn mapping_check() {
    let mut req = Request::new("eth0").unwrap();
    req.memory_size = 4096;
    req.offset = 100;
    assert_eq!(req.check_mapping(4096), Ok(()));
    assert_eq!(req.check_mapping(4095), Err(NetmapError::MappingFailure));
    req.offset = 4090;
    assert_eq!(req.check_mapping(4096), Err(NetmapError::MappingFailure));
}

#[test]
fn sync_direction_matches_ring() {
    assert_eq!(sync_kind(RingId::Tx(0)), SyncKind::Tx);
    assert_eq!(sync_kind(RingId::Rx(5)), SyncKind::Rx);
    let mut region = sim_region((0, 1, 1), (0, 0, 0));
    let iface = Iface::load(&region, 0).unwrap();
    let mut rx = iface.rx_ring(&region, 0).unwrap();
    assert_eq!(poll_start(RingId::Rx(0), &mut rx), PollAction::Sync(SyncKind::Rx));
    // a receive sync moves the receive ring's tail only
    put32(&mut region, RX_RING + 28, 2);
    let tx = iface.tx_ring(&region, 0).unwrap();
    assert_eq!(tx.tail, 1);
    let mut tx = tx;
    assert_eq!(poll_start(RingId::Tx(0), &mut tx), PollAction::Sync(SyncKind::Tx));
}

#[test]
fn poll_suspends_only_when_empty_after_sync() {
    let mut region = sim_region((0, 0, 0), (0, 0, 0));
    let iface = Iface::load(&region, 0).unwrap();
    let mut rx = iface.rx_ring(&region, 0).unwrap();
    assert_eq!(poll_start(RingId::Rx(0), &mut rx), PollAction::Sync(SyncKind::Rx));
    assert_eq!(poll_after_sync(&mut rx, Ok(())), PollAction::WaitReadable);
    assert_eq!(poll_after_sync(&mut rx, Err(NetmapError::SyncFailure)), PollAction::Fail(NetmapError::SyncFailure));
    // the kernel delivers two packets; the next poll succeeds
    put32(&mut region, RX_RING + 28, 2);
    let mut rx = iface.rx_ring(&region, 0).unwrap();
    assert_eq!(poll_after_sync(&mut rx, Ok(())), PollAction::Deliver(0));
    assert_eq!(poll_start(RingId::Rx(0), &mut rx), PollAction::Deliver(1));
    assert_eq!(rx.cur, 2);
}

#[test]
fn transmit_round_trip_on_simulated_ring() {
    let mut region = sim_region((0, 0, 3), (0, 0, 0));
    let iface = Iface::load(&region, 0).unwrap();
    let id = RingId::Tx(0);
    let index = claim(&mut region, &iface, id).unwrap().unwrap();
    assert_eq!(index, 0);
    assert_eq!(get32(&region, TX_RING + 24), 1);
    let handle = SlotRef { ring: id, index };
    let (start, len) = handle.buffer_range(&region, &iface).unwrap();
    assert_eq!((start, len), (TX_POOL + 3 * BUF as usize, BUF as usize));
    let payload = [0xabu8; 42];
    region[start..start + payload.len()].copy_from_slice(&payload);
    let ring = iface.ring(&region, id).unwrap();
    ring.set_slot(&mut region, index, payload.len() as u16, 0x7);
    handle.release(&mut region, &iface).unwrap();
    assert_eq!(get32(&region, TX_RING + 20), 1);
    // the kernel's transmit sync reads the slot record from the same bytes
    let ring = iface.ring(&region, id).unwrap();
    let slot = ring.slot(&region, index);
    assert_eq!((slot.length, slot.flags, slot.buffer_index), (42, 0x7, 3));
    assert_eq!(&region[start..start + 42], &payload[..]);
    assert_eq!((ring.head, ring.cur, ring.tail), (1, 1, 3));
    // the receive ring was left alone
    let rx = iface.rx_ring(&region, 0).unwrap();
    assert_eq!((rx.head, rx.cur, rx.tail), (0, 0, 0));
}

#[test]
fn release_touches_only_its_ring() {
    let mut region = sim_region((0, 2, 3), (1, 3, 3));
    let iface = Iface::load(&region, 0).unwrap();
    release(&mut region, &iface, RingId::Rx(0)).unwrap();
    assert_eq!(get32(&region, RX_RING + 20), 3);
    assert_eq!(get32(&region, TX_RING + 20), 0);
    assert_eq!(release(&mut region, &iface, RingId::Rx(4)), Err(NetmapError::InvalidRingIndex));
    assert_eq!(claim(&mut region, &iface, RingId::Rx(0)), Ok(None));
}

#[test]
fn field_codec() {
    let mut r = vec![0u8; 16];
    write_u32(&mut r, 2, 0x1234_5678);
    assert_eq!(&r[2..6], &[0x78, 0x56, 0x34, 0x12]);
    assert_eq!(read_u32(&r, 2), 0x1234_5678);
    write_u16(&mut r, 8, 0xbeef);
    assert_eq!(read_u16(&r, 8), 0xbeef);
    r[8..16].copy_from_slice(&(-5i64).to_le_bytes());
    assert_eq!(read_i64(&r, 8), -5);
}

#[test]
fn name_decodes_as_text() {
    let name = IfaceName::from_bytes(b"eth0").unwrap();
    assert_eq!(name.to_text(), Ok("eth0".to_string()));
    let full = IfaceName::from_bytes("abcdefghijklmnop".as_bytes()).unwrap();
    assert_eq!(full.to_text(), Ok("abcdefghijklmnop".to_string()));
    let bad = IfaceName::from_bytes(&[b'e', 0xff, 0xfe]).unwrap();
    assert_eq!(bad.to_text(), Err(NetmapError::InvalidName));
    let empty = IfaceName([0u8; 16]);
    assert_eq!(empty.to_text(), Ok(String::new()));
}
