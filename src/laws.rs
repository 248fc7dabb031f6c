//! Laws of the ring cursor protocol over sequences of operations.
use crate::sys::{cursors_in_order, ring_dist, Ring};
use vstd::arithmetic::div_mod::{lemma_mod_self_0, lemma_small_mod};
use vstd::prelude::*;

verus! {

/// A consumer's operation on a ring.
#[derive(Clone, Copy, Debug, PartialEq, Eq, Structural)]
pub enum RingOp {
    Claim,
    Reclaim,
}

/// The ring after the operations `ops`, in order.
pub open spec fn run(r: Ring, ops: Seq<RingOp>) -> Ring
    decreases ops.len(),
{
    if ops.len() == 0 {
        r
    } else {
        let next = match ops[0] {
            RingOp::Claim => r.claimed(),
            RingOp::Reclaim => r.reclaimed(),
        };
        run(next, ops.drop_first())
    }
}

/// A claim keeps a ring well formed.
pub proof fn lemma_claim_keeps_order(r: Ring)
    requires
        r.wf(),
    ensures
        r.claimed().wf(),
{
    if r.cur != r.tail {
        let n = r.num_slots as int;
        if r.cur + 1 < n {
            lemma_small_mod((r.cur + 1) as nat, n as nat);
        } else {
            lemma_mod_self_0(n);
        }
    }
}

/// `head <= cur <= tail` in circular order holds after every sequence of
/// claims and reclaims.
pub proof fn lemma_cursor_order_kept(r: Ring, ops: Seq<RingOp>)
    requires
        r.wf(),
    ensures
        run(r, ops).wf(),
        cursors_in_order(run(r, ops).head as int, run(r, ops).cur as int, run(r, ops).tail as int, run(r, ops).num_slots as int),
    decreases ops.len(),
{
    if ops.len() > 0 {
        match ops[0] {
            RingOp::Claim => {
                lemma_claim_keeps_order(r);
                lemma_cursor_order_kept(r.claimed(), ops.drop_first());
            },
            RingOp::Reclaim => {
                assert(ring_dist(r.cur as int, r.cur as int, r.num_slots as int) == 0);
                lemma_cursor_order_kept(r.reclaimed(), ops.drop_first());
            },
        }
    }
}

/// Reclaim is idempotent: two reclaims with no claim between them are one.
pub proof fn lemma_reclaim_idempotent(r: Ring)
    ensures
        r.reclaimed().reclaimed() == r.reclaimed(),
        r.reclaimed().head == r.cur,
{
}

/// A claim on an empty ring changes nothing; otherwise it hands out `cur`
/// and moves it one position forward, modulo the slot count.
pub proof fn lemma_claim_step(r: Ring)
    requires
        r.wf(),
    ensures
        r.cur == r.tail ==> r.claimed() == r,
        r.cur != r.tail ==> r.claimed().cur as int == (r.cur + 1) % (r.num_slots as int)
            && r.claimed().head == r.head && r.claimed().tail == r.tail,
{
}

} // verus!
