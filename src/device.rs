//! Models of two simple devices, as seen through the operation log of a `Hal`:
//! a register file of bytes, and a FIFO that hands back what was written to it.
//! The laws here state what the derived operations achieve against them.
use vstd::prelude::*;

use crate::frame::{
    lemma_prefix_masks_direction, write_prefix_spec, ADDR_MASK, FIFO_READ, FIFO_WRITE, WRITE_FLAG,
};
use crate::hal::{byte_result, gate_result, gated_read, gated_write, reg_read, Op};

verus! {

/// The registers `regs` after the device served `op`: a successful write frame
/// stores its payload from the framed address on; nothing else changes them.
pub open spec fn regs_step<E>(regs: Seq<u8>, op: Op<E>) -> Seq<u8> {
    match op {
        Op::PrefixWrite(p, d, r) => if r is Ok && p.len() == 1 && p[0] & WRITE_FLAG == WRITE_FLAG {
            let a = (p[0] & ADDR_MASK) as int;
            Seq::new(regs.len(), |i: int| if a <= i < a + d.len() { d[i - a] } else { regs[i] })
        } else {
            regs
        },
        _ => regs,
    }
}

/// The registers after the device served every operation of `ops`, in order.
pub open spec fn regs_replay<E>(regs: Seq<u8>, ops: Seq<Op<E>>) -> Seq<u8>
    decreases ops.len(),
{
    if ops.len() == 0 {
        regs
    } else {
        regs_step(regs_replay(regs, ops.drop_last()), ops.last())
    }
}

/// A successful read frame received the registers from the framed address on.
pub open spec fn regs_answer<E>(regs: Seq<u8>, op: Op<E>) -> bool {
    match op {
        Op::PrefixRead(p, _, received, r) => r is Ok && p.len() == 1 && p[0] & WRITE_FLAG == 0
            ==> {
            let a = (p[0] & ADDR_MASK) as int;
            forall|i: int| 0 <= i < received.len() && a + i < regs.len() ==> received[i] == regs[a + i]
        },
        _ => true,
    }
}

/// The FIFO `q` after the device served `op`: a successful write appends its
/// payload, a successful read takes as many bytes from the front as it received.
pub open spec fn fifo_step<E>(q: Seq<u8>, op: Op<E>) -> Seq<u8> {
    match op {
        Op::PrefixWrite(p, d, r) => if r is Ok && p == seq![FIFO_WRITE] {
            q + d
        } else {
            q
        },
        Op::PrefixRead(p, _, received, r) => if r is Ok && p == seq![FIFO_READ] && received.len()
            <= q.len() {
            q.skip(received.len() as int)
        } else {
            q
        },
        _ => q,
    }
}

/// The FIFO after the device served every operation of `ops`, in order.
pub open spec fn fifo_replay<E>(q: Seq<u8>, ops: Seq<Op<E>>) -> Seq<u8>
    decreases ops.len(),
{
    if ops.len() == 0 {
        q
    } else {
        fifo_step(fifo_replay(q, ops.drop_last()), ops.last())
    }
}

/// A successful FIFO read received the bytes at the front of the FIFO.
pub open spec fn fifo_answer<E>(q: Seq<u8>, op: Op<E>) -> bool {
    match op {
        Op::PrefixRead(p, _, received, r) => r is Ok && p == seq![FIFO_READ] && received.len()
            <= q.len() ==> received == q.take(received.len() as int),
        _ => true,
    }
}

/// On a register file, a successful `write_reg(reg, v)` followed by a successful
/// `read_reg(reg)` returns `v`.
pub proof fn lemma_reg_round_trip<E>(regs: Seq<u8>, reg: u8, v: u8, w: Seq<Op<E>>, rd: Seq<Op<E>>)
    requires
        regs.len() == 128,
        gated_write(w, write_prefix_spec(reg), seq![v]),
        gate_result(w) is Ok,
        reg_read(rd, reg),
        gate_result(rd) is Ok,
        regs_answer(regs_replay(regs, w), rd[1]),
    ensures
        byte_result(rd) == Ok::<u8, E>(v),
{
    lemma_prefix_masks_direction(reg);
    assert((reg & 0x7F) < 128) by (bit_vector);
    assert(w.len() == 3);
    let w2 = w.drop_last();
    let w1 = w2.drop_last();
    assert(w1.drop_last() =~= Seq::<Op<E>>::empty());
    assert(regs_replay(regs, w1.drop_last()) == regs);
    assert(regs_replay(regs, w1) == regs_step(regs, w[0]));
    assert(regs_replay(regs, w2) == regs_step(regs_replay(regs, w1), w[1]));
    let after = regs_replay(regs, w);
    assert(after == regs_step(regs, w[1]));
    let a = (reg & ADDR_MASK) as int;
    assert(after[a] == v);
    assert(rd[1]->PrefixRead_2[0] == after[a + 0]);
}

/// On a FIFO that starts empty, a successful write of `data` followed by a
/// successful read of as many bytes receives `data`.
pub proof fn lemma_fifo_round_trip<E>(
    data: Seq<u8>,
    sent: Seq<u8>,
    received: Seq<u8>,
    w: Seq<Op<E>>,
    rd: Seq<Op<E>>,
)
    requires
        gated_write(w, FIFO_WRITE, data),
        gate_result(w) is Ok,
        gated_read(rd, FIFO_READ, sent, received),
        gate_result(rd) is Ok,
        sent.len() == data.len(),
        fifo_answer(fifo_replay(Seq::<u8>::empty(), w), rd[1]),
    ensures
        received == data,
{
    let e = Seq::<u8>::empty();
    assert(w.len() == 3);
    let w2 = w.drop_last();
    let w1 = w2.drop_last();
    assert(w1.drop_last() =~= Seq::<Op<E>>::empty());
    assert(fifo_replay(e, w1.drop_last()) == e);
    assert(fifo_replay(e, w1) == fifo_step(e, w[0]));
    assert(fifo_replay(e, w2) == fifo_step(fifo_replay(e, w1), w[1]));
    assert(e + data =~= data);
    let q = fifo_replay(e, w);
    assert(q =~= data);
    assert(data.take(data.len() as int) =~= data);
}

} // verus!
