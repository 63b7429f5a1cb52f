//! The capability a radio driver needs from a device: five primitives that a
//! backend supplies, and the register and buffer operations derived from them.
use vstd::prelude::*;
use vstd::array::array_as_slice;

use crate::frame::{
    masked, masked_spec, read_prefix, read_prefix_spec, write_prefix, write_prefix_spec, FIFO_READ,
    FIFO_WRITE,
};

verus! {

broadcast use vstd::array::group_array_axioms;

/// One primitive operation made on a device, with its outcome.
pub enum Op<E> {
    Reset(Result<(), E>),
    WaitBusy(Result<(), E>),
    DelayMs(u32, Result<(), E>),
    DelayUs(u32, Result<(), E>),
    /// A prefixed read: the prefix sent, the bytes sent on the outgoing side of
    /// the transfer, and the contents of the buffer once the call returned.
    PrefixRead(Seq<u8>, Seq<u8>, Seq<u8>, Result<(), E>),
    /// A prefixed write: the prefix and the payload.
    PrefixWrite(Seq<u8>, Seq<u8>, Result<(), E>),
}

/// The outcome recorded for an operation.
pub open spec fn outcome<E>(op: Op<E>) -> Result<(), E> {
    match op {
        Op::Reset(r) => r,
        Op::WaitBusy(r) => r,
        Op::DelayMs(_, r) => r,
        Op::DelayUs(_, r) => r,
        Op::PrefixRead(_, _, _, r) => r,
        Op::PrefixWrite(_, _, r) => r,
    }
}

/// The entries that a call added to a log.
pub open spec fn added<A>(before: Seq<A>, after: Seq<A>) -> Seq<A> {
    after.subrange(before.len() as int, after.len() as int)
}

/// How many operations a gated transaction logs: the first busy-wait alone when it
/// failed, otherwise that wait, the transaction and a second wait.
pub open spec fn gate_len<E>(a: Seq<Op<E>>) -> int {
    if outcome(a[0]) is Err {
        1
    } else {
        3
    }
}

/// `a` is a gated transaction: a busy-wait; when it succeeded, one transaction and
/// then a second busy-wait, made whatever the transaction's outcome.
pub open spec fn gated<E>(a: Seq<Op<E>>) -> bool {
    &&& a.len() >= 1
    &&& a[0] is WaitBusy
    &&& a.len() == gate_len(a)
    &&& a.len() == 3 ==> a[2] is WaitBusy
}

/// The result of a gated transaction: the failure of the first wait, else that of
/// the transaction, else the outcome of the second wait.
pub open spec fn gate_result<E>(a: Seq<Op<E>>) -> Result<(), E> {
    if outcome(a[0]) is Err {
        outcome(a[0])
    } else if outcome(a[1]) is Err {
        outcome(a[1])
    } else {
        outcome(a[2])
    }
}

/// `a` is a gated prefixed read with this prefix, sending `sent` and leaving
/// `received` in the caller's buffer.
pub open spec fn gated_read<E>(a: Seq<Op<E>>, prefix: u8, sent: Seq<u8>, received: Seq<u8>) -> bool {
    &&& gated(a)
    &&& a.len() == 3 ==> a[1] is PrefixRead && a[1]->PrefixRead_0 == seq![prefix]
        && a[1]->PrefixRead_1 == sent && a[1]->PrefixRead_2 == received
    &&& a.len() == 1 ==> received == sent
    &&& received.len() == sent.len()
}

/// `a` is a gated prefixed write of `data` with this prefix.
pub open spec fn gated_write<E>(a: Seq<Op<E>>, prefix: u8, data: Seq<u8>) -> bool {
    &&& gated(a)
    &&& a.len() == 3 ==> a[1] == Op::PrefixWrite(seq![prefix], data, outcome(a[1]))
}

/// The byte a single-register read returns, or its failure.
pub open spec fn byte_result<E>(a: Seq<Op<E>>) -> Result<u8, E> {
    match gate_result(a) {
        Ok(_) => Ok(a[1]->PrefixRead_2[0]),
        Err(e) => Err(e),
    }
}

/// `a` is a single-register read of `reg`.
pub open spec fn reg_read<E>(a: Seq<Op<E>>, reg: u8) -> bool {
    &&& gated(a)
    &&& a.len() == 3 ==> a[1] is PrefixRead && a[1]->PrefixRead_0 == seq![read_prefix_spec(reg)]
        && a[1]->PrefixRead_1 == seq![0u8] && a[1]->PrefixRead_2.len() == 1
}

/// `a` is a masked update of `reg`: a single-register read and, when it succeeded,
/// a write of the masked value; `r` is the value written, or the first failure.
pub open spec fn reg_update<E>(a: Seq<Op<E>>, reg: u8, mask: u8, value: u8, r: Result<u8, E>) -> bool {
    let n = gate_len(a);
    &&& a.len() >= 1
    &&& n <= a.len()
    &&& reg_read(a.take(n), reg)
    &&& match byte_result(a.take(n)) {
        Err(e) => a.len() == n && r == Err::<u8, E>(e),
        Ok(existing) => {
            let written = masked_spec(existing, mask, value);
            &&& gated_write(a.skip(n), write_prefix_spec(reg), seq![written])
            &&& r == match gate_result(a.skip(n)) {
                Ok(_) => Ok::<u8, E>(written),
                Err(e) => Err(e),
            }
        },
    }
}

/// A device reached over a prefixed, chip-selected serial transaction.
///
/// `log` is the sequence of primitive operations made on the device so far. The
/// derived operations are defined once here from the primitives.
pub trait Hal {
    type Error;

    spec fn log(&self) -> Seq<Op<Self::Error>>;

    /// Brings the device into its reset state.
    fn reset(&mut self) -> (r: Result<(), Self::Error>)
        ensures
            final(self).log() == old(self).log().push(Op::Reset(r)),
    ;

    /// Waits until the device reports that it is ready.
    fn wait_busy(&mut self) -> (r: Result<(), Self::Error>)
        ensures
            final(self).log() == old(self).log().push(Op::WaitBusy(r)),
    ;

    /// Blocks for at least `ms` milliseconds.
    fn delay_ms(&mut self, ms: u32) -> (r: Result<(), Self::Error>)
        ensures
            final(self).log() == old(self).log().push(Op::DelayMs(ms, r)),
    ;

    /// Blocks for at least `us` microseconds.
    fn delay_us(&mut self, us: u32) -> (r: Result<(), Self::Error>)
        ensures
            final(self).log() == old(self).log().push(Op::DelayUs(us, r)),
    ;

    /// Sends `prefix`, then exchanges `data` with the device: its contents go out
    /// and what comes back replaces them.
    fn prefix_read(&mut self, prefix: &[u8], data: &mut [u8]) -> (r: Result<(), Self::Error>)
        ensures
            final(data)@.len() == old(data)@.len(),
            final(self).log() == old(self).log().push(
                Op::PrefixRead(prefix@, old(data)@, final(data)@, r),
            ),
    ;

    /// Sends `prefix`, then `data`.
    fn prefix_write(&mut self, prefix: &[u8], data: &[u8]) -> (r: Result<(), Self::Error>)
        ensures
            final(self).log() == old(self).log().push(Op::PrefixWrite(prefix@, data@, r)),
    ;

    /// Reads `data.len()` bytes starting at register `reg`.
    fn read_regs(&mut self, reg: u8, data: &mut [u8]) -> (r: Result<(), Self::Error>)
        ensures
            final(self).log().len() > old(self).log().len(),
            final(self).log().take(old(self).log().len() as int) == old(self).log(),
            gated_read(
                added(old(self).log(), final(self).log()),
                read_prefix_spec(reg),
                old(data)@,
                final(data)@,
            ),
            r == gate_result(added(old(self).log(), final(self).log())),
    {
        let out_buf: [u8; 1] = [read_prefix(reg)];
        self.gated_read_with(array_as_slice(&out_buf), data)
    }

    /// Writes `data` to consecutive registers starting at `reg`.
    fn write_regs(&mut self, reg: u8, data: &[u8]) -> (r: Result<(), Self::Error>)
        ensures
            final(self).log().len() > old(self).log().len(),
            final(self).log().take(old(self).log().len() as int) == old(self).log(),
            gated_write(added(old(self).log(), final(self).log()), write_prefix_spec(reg), data@),
            r == gate_result(added(old(self).log(), final(self).log())),
    {
        let out_buf: [u8; 1] = [write_prefix(reg)];
        self.gated_write_with(array_as_slice(&out_buf), data)
    }

    /// Writes `data` into the device's FIFO buffer.
    fn write_buff(&mut self, data: &[u8]) -> (r: Result<(), Self::Error>)
        ensures
            final(self).log().len() > old(self).log().len(),
            final(self).log().take(old(self).log().len() as int) == old(self).log(),
            gated_write(added(old(self).log(), final(self).log()), FIFO_WRITE, data@),
            r == gate_result(added(old(self).log(), final(self).log())),
    {
        let out_buf: [u8; 1] = [FIFO_WRITE];
        self.gated_write_with(array_as_slice(&out_buf), data)
    }

    /// Fills `data` from the device's FIFO buffer.
    fn read_buff(&mut self, data: &mut [u8]) -> (r: Result<(), Self::Error>)
        ensures
            final(self).log().len() > old(self).log().len(),
            final(self).log().take(old(self).log().len() as int) == old(self).log(),
            gated_read(added(old(self).log(), final(self).log()), FIFO_READ, old(data)@, final(data)@),
            r == gate_result(added(old(self).log(), final(self).log())),
    {
        let out_buf: [u8; 1] = [FIFO_READ];
        self.gated_read_with(array_as_slice(&out_buf), data)
    }

    /// Reads the single register `reg`.
    fn read_reg(&mut self, reg: u8) -> (r: Result<u8, Self::Error>)
        ensures
            final(self).log().len() > old(self).log().len(),
            final(self).log().take(old(self).log().len() as int) == old(self).log(),
            reg_read(added(old(self).log(), final(self).log()), reg),
            r == byte_result(added(old(self).log(), final(self).log())),
    {
        let mut incoming: Vec<u8> = vec![0u8];
        assert(incoming@ =~= seq![0u8]);
        let r = self.read_regs(reg, incoming.as_mut_slice());
        match r {
            Ok(_) => Ok(incoming[0]),
            Err(e) => Err(e),
        }
    }

    /// Writes `value` to the single register `reg`.
    fn write_reg(&mut self, reg: u8, value: u8) -> (r: Result<(), Self::Error>)
        ensures
            final(self).log().len() > old(self).log().len(),
            final(self).log().take(old(self).log().len() as int) == old(self).log(),
            gated_write(added(old(self).log(), final(self).log()), write_prefix_spec(reg), seq![value]),
            r == gate_result(added(old(self).log(), final(self).log())),
    {
        let out_buf: [u8; 1] = [value];
        let payload = array_as_slice(&out_buf);
        assert(payload@ =~= seq![value]);
        self.write_regs(reg, payload)
    }

    /// Sets the bits of register `reg` selected by `mask` to those of `value`,
    /// keeping the others, and returns the value written.
    fn update_reg(&mut self, reg: u8, mask: u8, value: u8) -> (r: Result<u8, Self::Error>)
        ensures
            final(self).log().len() > old(self).log().len(),
            final(self).log().take(old(self).log().len() as int) == old(self).log(),
            reg_update(added(old(self).log(), final(self).log()), reg, mask, value, r),
    {
        let ghost l0 = self.log();
        let existing = match self.read_reg(reg) {
            Ok(b) => b,
            Err(e) => {
                assert(added(l0, self.log()).take(gate_len(added(l0, self.log())))
                    =~= added(l0, self.log()));
                return Err(e);
            },
        };
        let ghost l1 = self.log();
        let updated = masked(existing, mask, value);
        let w = self.write_reg(reg, updated);
        proof {
            let a = added(l0, self.log());
            let n = gate_len(a);
            assert(a.take(n) =~= added(l0, l1));
            assert(a.skip(n) =~= added(l1, self.log()));
            assert(self.log().take(l0.len() as int) =~= l0);
        }
        match w {
            Ok(_) => Ok(updated),
            Err(e) => Err(e),
        }
    }

    /// A prefixed write between two busy-waits.
    fn gated_write_with(&mut self, prefix: &[u8], data: &[u8]) -> (r: Result<(), Self::Error>)
        requires
            prefix@.len() == 1,
        ensures
            final(self).log().len() > old(self).log().len(),
            final(self).log().take(old(self).log().len() as int) == old(self).log(),
            gated_write(added(old(self).log(), final(self).log()), prefix@[0], data@),
            r == gate_result(added(old(self).log(), final(self).log())),
    {
        let ghost l0 = self.log();
        let first = self.wait_busy();
        match first {
            Ok(_) => {},
            Err(e) => {
                assert(added(l0, self.log()) =~= seq![Op::WaitBusy(Err(e))]);
                return Err(e);
            },
        }
        let r = self.prefix_write(prefix, data);
        let w = self.wait_busy();
        assert(prefix@ =~= seq![prefix@[0]]);
        assert(added(l0, self.log()) =~= seq![
            Op::WaitBusy(first),
            Op::PrefixWrite(prefix@, data@, r),
            Op::WaitBusy(w),
        ]);
        assert(self.log().take(l0.len() as int) =~= l0);
        if r.is_err() {
            r
        } else {
            w
        }
    }

    /// A prefixed read between two busy-waits.
    fn gated_read_with(&mut self, prefix: &[u8], data: &mut [u8]) -> (r: Result<(), Self::Error>)
        requires
            prefix@.len() == 1,
        ensures
            final(self).log().len() > old(self).log().len(),
            final(self).log().take(old(self).log().len() as int) == old(self).log(),
            gated_read(added(old(self).log(), final(self).log()), prefix@[0], old(data)@, final(data)@),
            r == gate_result(added(old(self).log(), final(self).log())),
    {
        let ghost l0 = self.log();
        let first = self.wait_busy();
        match first {
            Ok(_) => {},
            Err(e) => {
                assert(added(l0, self.log()) =~= seq![Op::WaitBusy(Err(e))]);
                return Err(e);
            },
        }
        let r = self.prefix_read(prefix, data);
        let w = self.wait_busy();
        assert(prefix@ =~= seq![prefix@[0]]);
        assert(added(l0, self.log()) =~= seq![
            Op::WaitBusy(first),
            Op::PrefixRead(prefix@, old(data)@, data@, r),
            Op::WaitBusy(w),
        ]);
        assert(self.log().take(l0.len() as int) =~= l0);
        if r.is_err() {
            r
        } else {
            w
        }
    }
}

} // verus!
