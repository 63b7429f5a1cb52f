//! A backend for [`Hal`] built from a serial bus, a chip-select line, a shutdown
//! line and a delay source.
use vstd::prelude::*;
use vstd::slice::{slice_to_vec, SliceAdditionalExecFns};

use crate::error::HalError;
use crate::hal::{added, Hal, Op};

verus! {

/// One call made on a bus, with its outcome.
pub enum SpiCall<E> {
    /// The bytes written.
    Write(Seq<u8>, Result<(), E>),
    /// A transfer: the bytes sent, and the buffer once the bus returned.
    Transfer(Seq<u8>, Seq<u8>, Result<(), E>),
}

/// One wait of a delay source.
pub enum Wait {
    Ms(u32),
    Us(u32),
}

/// A serial bus whose writes and full-duplex transfers share one error type.
pub trait SpiBase {
    type Error;

    /// Every call made on this bus so far, in order.
    ///
    /// A backend checked by Verus defines it as the record it keeps. The default
    /// serves backends written outside Verus: it is closed, so no proof reads it,
    /// and the contracts below are what the proofs rely on.
    closed spec fn calls(&self) -> Seq<SpiCall<Self::Error>> {
        Seq::empty()
    }

    /// Sends `words`.
    fn write(&mut self, words: &[u8]) -> (r: Result<(), Self::Error>)
        ensures
            final(self).calls() == old(self).calls().push(SpiCall::Write(words@, r)),
    ;

    /// Sends `words` and replaces them with the bytes clocked in at the same time.
    fn transfer(&mut self, words: &mut [u8]) -> (r: Result<(), Self::Error>)
        ensures
            final(self).calls() == old(self).calls().push(
                SpiCall::Transfer(old(words)@, final(words)@, r),
            ),
    ;
}

/// A digital output line.
pub trait OutputLine {
    type Error;

    /// Every level the line was driven to so far, `true` for high, with the outcome.
    ///
    /// A backend checked by Verus defines it as the record it keeps. The default
    /// serves backends written outside Verus: it is closed, so no proof reads it,
    /// and the contracts below are what the proofs rely on.
    closed spec fn levels(&self) -> Seq<(bool, Result<(), Self::Error>)> {
        Seq::empty()
    }

    /// Drives the line low.
    fn set_low(&mut self) -> (r: Result<(), Self::Error>)
        ensures
            final(self).levels() == old(self).levels().push((false, r)),
    ;

    /// Drives the line high.
    fn set_high(&mut self) -> (r: Result<(), Self::Error>)
        ensures
            final(self).levels() == old(self).levels().push((true, r)),
    ;
}

/// A blocking delay source.
pub trait Delay {
    /// Every wait made so far, in order.
    ///
    /// A backend checked by Verus defines it as the record it keeps. The default
    /// serves backends written outside Verus: it is closed, so no proof reads it,
    /// and the contracts below are what the proofs rely on.
    closed spec fn waits(&self) -> Seq<Wait> {
        Seq::empty()
    }

    /// Blocks for at least `ms` milliseconds.
    fn delay_ms(&mut self, ms: u32)
        ensures
            final(self).waits() == old(self).waits().push(Wait::Ms(ms)),
    ;

    /// Blocks for at least `us` microseconds.
    fn delay_us(&mut self, us: u32)
        ensures
            final(self).waits() == old(self).waits().push(Wait::Us(us)),
    ;
}

/// One call that a [`Base`] made on its resources, with its outcome.
pub enum BusEvent<S, P> {
    CsLow(Result<(), P>),
    CsHigh(Result<(), P>),
    SdnLow(Result<(), P>),
    SdnHigh(Result<(), P>),
    DelayMs(u32),
    DelayUs(u32),
    /// Bytes written to the bus.
    Write(Seq<u8>, Result<(), S>),
    /// A transfer: the bytes sent, and the buffer once the bus returned.
    Transfer(Seq<u8>, Seq<u8>, Result<(), S>),
}

/// What the resources of a [`Base`] have seen: the levels of chip-select and of
/// shutdown, the bus calls and the waits.
pub struct Resources<S, P> {
    pub cs: Seq<(bool, Result<(), P>)>,
    pub sdn: Seq<(bool, Result<(), P>)>,
    pub spi: Seq<SpiCall<S>>,
    pub waits: Seq<Wait>,
}

/// `c` once the resource that `e` names has seen that call.
pub open spec fn seen<S, P>(c: Resources<S, P>, e: BusEvent<S, P>) -> Resources<S, P> {
    match e {
        BusEvent::CsLow(r) => Resources { cs: c.cs.push((false, r)), sdn: c.sdn, spi: c.spi, waits: c.waits },
        BusEvent::CsHigh(r) => Resources { cs: c.cs.push((true, r)), sdn: c.sdn, spi: c.spi, waits: c.waits },
        BusEvent::SdnLow(r) => Resources { cs: c.cs, sdn: c.sdn.push((false, r)), spi: c.spi, waits: c.waits },
        BusEvent::SdnHigh(r) => Resources { cs: c.cs, sdn: c.sdn.push((true, r)), spi: c.spi, waits: c.waits },
        BusEvent::DelayMs(ms) => Resources { cs: c.cs, sdn: c.sdn, spi: c.spi, waits: c.waits.push(Wait::Ms(ms)) },
        BusEvent::DelayUs(us) => Resources { cs: c.cs, sdn: c.sdn, spi: c.spi, waits: c.waits.push(Wait::Us(us)) },
        BusEvent::Write(b, r) => Resources {
            cs: c.cs,
            sdn: c.sdn,
            spi: c.spi.push(SpiCall::Write(b, r)),
            waits: c.waits,
        },
        BusEvent::Transfer(b, got, r) => Resources {
            cs: c.cs,
            sdn: c.sdn,
            spi: c.spi.push(SpiCall::Transfer(b, got, r)),
            waits: c.waits,
        },
    }
}

/// `c` once the resources have seen each call of `ev`, in order.
pub open spec fn seen_all<S, P>(c: Resources<S, P>, ev: Seq<BusEvent<S, P>>) -> Resources<S, P>
    decreases ev.len(),
{
    if ev.len() == 0 {
        c
    } else {
        seen(seen_all(c, ev.drop_last()), ev.last())
    }
}

/// The trace went from `t0` to `t1` by adding events, and the resources went from
/// `r0` to `r1` by seeing exactly those calls: every event stands for a call that
/// was made, with the arguments and the outcome it records, and no call was made
/// that the trace does not show.
pub open spec fn tied<S, P>(
    t0: Seq<BusEvent<S, P>>,
    r0: Resources<S, P>,
    t1: Seq<BusEvent<S, P>>,
    r1: Resources<S, P>,
) -> bool {
    &&& t0.len() <= t1.len()
    &&& t1.take(t0.len() as int) == t0
    &&& r1 == seen_all(r0, added(t0, t1))
}

proof fn lemma_tied_start<S, P>(t: Seq<BusEvent<S, P>>, r: Resources<S, P>)
    ensures
        tied(t, r, t, r),
{
    assert(added(t, t) =~= Seq::<BusEvent<S, P>>::empty());
    assert(t.take(t.len() as int) =~= t);
}

proof fn lemma_tied_step<S, P>(
    t0: Seq<BusEvent<S, P>>,
    r0: Resources<S, P>,
    t1: Seq<BusEvent<S, P>>,
    r1: Resources<S, P>,
    e: BusEvent<S, P>,
)
    requires
        tied(t0, r0, t1, r1),
    ensures
        tied(t0, r0, t1.push(e), seen(r1, e)),
{
    assert(added(t0, t1.push(e)) =~= added(t0, t1).push(e));
    assert(added(t0, t1).push(e).drop_last() =~= added(t0, t1));
    assert(t1.push(e).take(t0.len() as int) =~= t0);
}

/// The error of a [`Base`]: its delay source cannot fail.
pub type BaseError<Spi, Cs> = HalError<<Spi as SpiBase>::Error, <Cs as OutputLine>::Error, ()>;

/// Milliseconds the shutdown line is held low during a reset.
pub const RESET_HOLD_MS: u32 = 1;

/// Milliseconds allowed for the device to start after a reset.
pub const RESET_SETTLE_MS: u32 = 10;

/// The result of a transaction once chip-select was released with outcome `cs`
/// after the bus reported `bus`: a failure to release wins over a bus failure.
pub open spec fn settled<S, P>(cs: Result<(), P>, bus: Result<(), S>, r: Result<(), HalError<S, P, ()>>) -> bool {
    match cs {
        Err(e) => r == Err::<(), HalError<S, P, ()>>(HalError::Pin(e)),
        Ok(_) => match bus {
            Err(e) => r == Err::<(), HalError<S, P, ()>>(HalError::Spi(e)),
            Ok(_) => r is Ok,
        },
    }
}

/// `ev` is a prefixed write: chip-select asserted; when that succeeded, `prefix`
/// written, then `data` only if the prefix went out, then chip-select released
/// whatever the bus did.
pub open spec fn write_transaction<S, P>(
    ev: Seq<BusEvent<S, P>>,
    prefix: Seq<u8>,
    data: Seq<u8>,
    r: Result<(), HalError<S, P, ()>>,
) -> bool {
    &&& ev.len() >= 1
    &&& ev[0] is CsLow
    &&& match ev[0]->CsLow_0 {
        Err(e) => ev.len() == 1 && r == Err::<(), HalError<S, P, ()>>(HalError::Pin(e)),
        Ok(_) => {
            &&& ev.len() >= 3
            &&& ev[1] is Write
            &&& ev[1]->Write_0 == prefix
            &&& ev.last() is CsHigh
            &&& match ev[1]->Write_1 {
                Err(e) => ev.len() == 3 && settled(ev[2]->CsHigh_0, Err::<(), S>(e), r),
                Ok(_) => {
                    &&& ev.len() == 4
                    &&& ev[2] is Write
                    &&& ev[2]->Write_0 == data
                    &&& settled(ev[3]->CsHigh_0, ev[2]->Write_1, r)
                },
            }
        },
    }
}

/// `ev` is a prefixed read of a buffer that held `sent` and holds `received` after:
/// as a write, but the payload is a transfer of `sent`, whose incoming bytes end up
/// in the buffer when it succeeded; otherwise the buffer is left as it was.
pub open spec fn read_transaction<S, P>(
    ev: Seq<BusEvent<S, P>>,
    prefix: Seq<u8>,
    sent: Seq<u8>,
    received: Seq<u8>,
    r: Result<(), HalError<S, P, ()>>,
) -> bool {
    &&& ev.len() >= 1
    &&& ev[0] is CsLow
    &&& match ev[0]->CsLow_0 {
        Err(e) => ev.len() == 1 && r == Err::<(), HalError<S, P, ()>>(HalError::Pin(e))
            && received == sent,
        Ok(_) => {
            &&& ev.len() >= 3
            &&& ev[1] is Write
            &&& ev[1]->Write_0 == prefix
            &&& ev.last() is CsHigh
            &&& match ev[1]->Write_1 {
                Err(e) => ev.len() == 3 && settled(ev[2]->CsHigh_0, Err::<(), S>(e), r)
                    && received == sent,
                Ok(_) => {
                    &&& ev.len() == 4
                    &&& ev[2] is Transfer
                    &&& ev[2]->Transfer_0 == sent
                    &&& settled(ev[3]->CsHigh_0, ev[2]->Transfer_2, r)
                    &&& received == if ev[2]->Transfer_2 is Ok && ev[2]->Transfer_1.len()
                        == sent.len() {
                        ev[2]->Transfer_1
                    } else {
                        sent
                    }
                },
            }
        },
    }
}

/// `ev` is a reset: shutdown driven low; when that succeeded, a short hold, the
/// line driven high and, when that succeeded too, a longer wait for start-up.
pub open spec fn reset_sequence<S, P>(ev: Seq<BusEvent<S, P>>, r: Result<(), HalError<S, P, ()>>) -> bool {
    &&& ev.len() >= 1
    &&& ev[0] is SdnLow
    &&& match ev[0]->SdnLow_0 {
        Err(e) => ev.len() == 1 && r == Err::<(), HalError<S, P, ()>>(HalError::Pin(e)),
        Ok(_) => {
            &&& ev.len() >= 3
            &&& ev[1] == BusEvent::<S, P>::DelayMs(RESET_HOLD_MS)
            &&& ev[2] is SdnHigh
            &&& match ev[2]->SdnHigh_0 {
                Err(e) => ev.len() == 3 && r == Err::<(), HalError<S, P, ()>>(HalError::Pin(e)),
                Ok(_) => ev.len() == 4 && ev[3] == BusEvent::<S, P>::DelayMs(RESET_SETTLE_MS)
                    && r is Ok,
            }
        },
    }
}

/// A radio reached over a serial bus: `cs` selects it for each transaction, `sdn`
/// holds it in shutdown while low.
pub struct Base<Spi: SpiBase, Cs: OutputLine, Sdn: OutputLine<Error = <Cs as OutputLine>::Error>, D: Delay> {
    pub spi: Spi,
    pub cs: Cs,
    pub sdn: Sdn,
    pub delay: D,
    trace: Ghost<Seq<BusEvent<<Spi as SpiBase>::Error, <Cs as OutputLine>::Error>>>,
    ops: Ghost<Seq<Op<BaseError<Spi, Cs>>>>,
}

impl<Spi: SpiBase, Cs: OutputLine, Sdn: OutputLine<Error = <Cs as OutputLine>::Error>, D: Delay> Base<Spi, Cs, Sdn, D> {
    /// Whether `wait_busy` polls a busy signal of the device. This backend has
    /// none: its wait returns at once, so a device that signals busy needs a
    /// backend that polls that signal.
    pub const HAS_BUSY_SIGNAL: bool = false;

    /// Every call made on the resources, in order.
    pub closed spec fn trace(&self) -> Seq<BusEvent<<Spi as SpiBase>::Error, <Cs as OutputLine>::Error>> {
        self.trace@
    }

    /// What the resources have seen, by their own accounts.
    pub closed spec fn resources(&self) -> Resources<<Spi as SpiBase>::Error, <Cs as OutputLine>::Error> {
        Resources {
            cs: self.cs.levels(),
            sdn: self.sdn.levels(),
            spi: self.spi.calls(),
            waits: self.delay.waits(),
        }
    }

    /// Takes ownership of the resources; nothing has been called through it yet.
    pub fn new(spi: Spi, cs: Cs, sdn: Sdn, delay: D) -> (r: Self)
        ensures
            r.resources() == (Resources {
                cs: cs.levels(),
                sdn: sdn.levels(),
                spi: spi.calls(),
                waits: delay.waits(),
            }),
            r.trace() == Seq::<BusEvent<<Spi as SpiBase>::Error, <Cs as OutputLine>::Error>>::empty(),
            r.log() == Seq::<Op<BaseError<Spi, Cs>>>::empty(),
    {
        Base { spi, cs, sdn, delay, trace: Ghost(Seq::empty()), ops: Ghost(Seq::empty()) }
    }

    /// Asserts chip-select.
    fn cs_low(&mut self, Ghost(t0): Ghost<Seq<BusEvent<<Spi as SpiBase>::Error, <Cs as OutputLine>::Error>>>, Ghost(r0): Ghost<Resources<<Spi as SpiBase>::Error, <Cs as OutputLine>::Error>>) -> (r: Result<(), <Cs as OutputLine>::Error>)
        requires
            tied(t0, r0, old(self).trace(), old(self).resources()),
        ensures
            tied(t0, r0, final(self).trace(), final(self).resources()),
            final(self).log() == old(self).log(),
            final(self).trace() == old(self).trace().push(BusEvent::CsLow(r)),
    {
        let ghost t1 = self.trace@;
        let ghost r1 = self.resources();
        let r = self.cs.set_low();
        proof {
            lemma_tied_step(t0, r0, t1, r1, BusEvent::CsLow(r));
        }
        self.trace = Ghost(self.trace@.push(BusEvent::CsLow(r)));
        r
    }

    /// Releases chip-select.
    fn cs_high(&mut self, Ghost(t0): Ghost<Seq<BusEvent<<Spi as SpiBase>::Error, <Cs as OutputLine>::Error>>>, Ghost(r0): Ghost<Resources<<Spi as SpiBase>::Error, <Cs as OutputLine>::Error>>) -> (r: Result<(), <Cs as OutputLine>::Error>)
        requires
            tied(t0, r0, old(self).trace(), old(self).resources()),
        ensures
            tied(t0, r0, final(self).trace(), final(self).resources()),
            final(self).log() == old(self).log(),
            final(self).trace() == old(self).trace().push(BusEvent::CsHigh(r)),
    {
        let ghost t1 = self.trace@;
        let ghost r1 = self.resources();
        let r = self.cs.set_high();
        proof {
            lemma_tied_step(t0, r0, t1, r1, BusEvent::CsHigh(r));
        }
        self.trace = Ghost(self.trace@.push(BusEvent::CsHigh(r)));
        r
    }

    /// Holds the device in shutdown.
    fn sdn_low(&mut self, Ghost(t0): Ghost<Seq<BusEvent<<Spi as SpiBase>::Error, <Cs as OutputLine>::Error>>>, Ghost(r0): Ghost<Resources<<Spi as SpiBase>::Error, <Cs as OutputLine>::Error>>) -> (r: Result<(), <Cs as OutputLine>::Error>)
        requires
            tied(t0, r0, old(self).trace(), old(self).resources()),
        ensures
            tied(t0, r0, final(self).trace(), final(self).resources()),
            final(self).log() == old(self).log(),
            final(self).trace() == old(self).trace().push(BusEvent::SdnLow(r)),
    {
        let ghost t1 = self.trace@;
        let ghost r1 = self.resources();
        let r = self.sdn.set_low();
        proof {
            lemma_tied_step(t0, r0, t1, r1, BusEvent::SdnLow(r));
        }
        self.trace = Ghost(self.trace@.push(BusEvent::SdnLow(r)));
        r
    }

    /// Lets the device out of shutdown.
    fn sdn_high(&mut self, Ghost(t0): Ghost<Seq<BusEvent<<Spi as SpiBase>::Error, <Cs as OutputLine>::Error>>>, Ghost(r0): Ghost<Resources<<Spi as SpiBase>::Error, <Cs as OutputLine>::Error>>) -> (r: Result<(), <Cs as OutputLine>::Error>)
        requires
            tied(t0, r0, old(self).trace(), old(self).resources()),
        ensures
            tied(t0, r0, final(self).trace(), final(self).resources()),
            final(self).log() == old(self).log(),
            final(self).trace() == old(self).trace().push(BusEvent::SdnHigh(r)),
    {
        let ghost t1 = self.trace@;
        let ghost r1 = self.resources();
        let r = self.sdn.set_high();
        proof {
            lemma_tied_step(t0, r0, t1, r1, BusEvent::SdnHigh(r));
        }
        self.trace = Ghost(self.trace@.push(BusEvent::SdnHigh(r)));
        r
    }

    /// Writes `words` to the bus.
    fn bus_write(&mut self, words: &[u8], Ghost(t0): Ghost<Seq<BusEvent<<Spi as SpiBase>::Error, <Cs as OutputLine>::Error>>>, Ghost(r0): Ghost<Resources<<Spi as SpiBase>::Error, <Cs as OutputLine>::Error>>) -> (r: Result<(), <Spi as SpiBase>::Error>)
        requires
            tied(t0, r0, old(self).trace(), old(self).resources()),
        ensures
            tied(t0, r0, final(self).trace(), final(self).resources()),
            final(self).log() == old(self).log(),
            final(self).trace() == old(self).trace().push(BusEvent::Write(words@, r)),
    {
        let ghost t1 = self.trace@;
        let ghost r1 = self.resources();
        let r = self.spi.write(words);
        proof {
            lemma_tied_step(t0, r0, t1, r1, BusEvent::Write(words@, r));
        }
        self.trace = Ghost(self.trace@.push(BusEvent::Write(words@, r)));
        r
    }

    /// Waits `ms` milliseconds.
    fn pause_ms(&mut self, ms: u32, Ghost(t0): Ghost<Seq<BusEvent<<Spi as SpiBase>::Error, <Cs as OutputLine>::Error>>>, Ghost(r0): Ghost<Resources<<Spi as SpiBase>::Error, <Cs as OutputLine>::Error>>) -> (r: ())
        requires
            tied(t0, r0, old(self).trace(), old(self).resources()),
        ensures
            tied(t0, r0, final(self).trace(), final(self).resources()),
            final(self).log() == old(self).log(),
            final(self).trace() == old(self).trace().push(BusEvent::DelayMs(ms)),
    {
        let ghost t1 = self.trace@;
        let ghost r1 = self.resources();
        let r = self.delay.delay_ms(ms);
        proof {
            lemma_tied_step(t0, r0, t1, r1, BusEvent::DelayMs(ms));
        }
        self.trace = Ghost(self.trace@.push(BusEvent::DelayMs(ms)));
        r
    }

    /// Waits `us` microseconds.
    fn pause_us(&mut self, us: u32, Ghost(t0): Ghost<Seq<BusEvent<<Spi as SpiBase>::Error, <Cs as OutputLine>::Error>>>, Ghost(r0): Ghost<Resources<<Spi as SpiBase>::Error, <Cs as OutputLine>::Error>>) -> (r: ())
        requires
            tied(t0, r0, old(self).trace(), old(self).resources()),
        ensures
            tied(t0, r0, final(self).trace(), final(self).resources()),
            final(self).log() == old(self).log(),
            final(self).trace() == old(self).trace().push(BusEvent::DelayUs(us)),
    {
        let ghost t1 = self.trace@;
        let ghost r1 = self.resources();
        let r = self.delay.delay_us(us);
        proof {
            lemma_tied_step(t0, r0, t1, r1, BusEvent::DelayUs(us));
        }
        self.trace = Ghost(self.trace@.push(BusEvent::DelayUs(us)));
        r
    }

    /// The payload half of a prefixed read: a transfer that sends a copy of `data`
    /// and, when it succeeds, copies the incoming bytes back into `data`.
    fn exchange(&mut self, data: &mut [u8], Ghost(t0): Ghost<Seq<BusEvent<<Spi as SpiBase>::Error, <Cs as OutputLine>::Error>>>, Ghost(r0): Ghost<Resources<<Spi as SpiBase>::Error, <Cs as OutputLine>::Error>>) -> (r: Result<(), <Spi as SpiBase>::Error>)
        requires
            tied(t0, r0, old(self).trace(), old(self).resources()),
        ensures
            tied(t0, r0, final(self).trace(), final(self).resources()),
            final(self).log() == old(self).log(),
            final(self).trace().len() == old(self).trace().len() + 1,
            final(self).trace().take(old(self).trace().len() as int) == old(self).trace(),
            ({
                let ev = final(self).trace().last();
                &&& ev is Transfer
                &&& ev->Transfer_0 == old(data)@
                &&& ev->Transfer_2 == r
                &&& final(data)@ == if r is Ok && ev->Transfer_1.len() == old(data)@.len() {
                    ev->Transfer_1
                } else {
                    old(data)@
                }
            }),
    {
        let ghost t1 = self.trace@;
        let ghost r1 = self.resources();
        let mut buf = slice_to_vec(data);
        let t = self.spi.transfer(buf.as_mut_slice());
        let ghost e = BusEvent::Transfer(old(data)@, buf@, t);
        proof {
            lemma_tied_step(t0, r0, t1, r1, e);
        }
        self.trace = Ghost(self.trace@.push(e));
        assert(self.trace@.take(t1.len() as int) =~= t1);
        if t.is_ok() && buf.len() == data.len() {
            let mut i: usize = 0;
            while i < buf.len()
                invariant
                    buf@.len() == data@.len(),
                    data@.len() == old(data)@.len(),
                    i <= buf@.len(),
                    forall|j: int| 0 <= j < i ==> data@[j] == buf@[j],
                decreases buf@.len() - i,
            {
                data.set(i, buf[i]);
                i = i + 1;
            }
            assert(data@ =~= buf@);
        }
        t
    }

}

impl<Spi: SpiBase, Cs: OutputLine, Sdn: OutputLine<Error = <Cs as OutputLine>::Error>, D: Delay> Hal for Base<Spi, Cs, Sdn, D> {
    type Error = BaseError<Spi, Cs>;

    closed spec fn log(&self) -> Seq<Op<Self::Error>> {
        self.ops@
    }

    fn reset(&mut self) -> (r: Result<(), Self::Error>)
        ensures
            tied(old(self).trace(), old(self).resources(), final(self).trace(), final(self).resources()),
            reset_sequence(added(old(self).trace(), final(self).trace()), r),
    {
        let ghost t0 = self.trace();
        let ghost r0 = self.resources();
        proof { lemma_tied_start(t0, r0); }
        let low = self.sdn_low(Ghost(t0), Ghost(r0));
        let r = match low {
            Err(e) => Err(HalError::Pin(e)),
            Ok(_) => {
                self.pause_ms(RESET_HOLD_MS, Ghost(t0), Ghost(r0));
                let high = self.sdn_high(Ghost(t0), Ghost(r0));
                match high {
                    Err(e) => Err(HalError::Pin(e)),
                    Ok(_) => {
                        self.pause_ms(RESET_SETTLE_MS, Ghost(t0), Ghost(r0));
                        Ok(())
                    },
                }
            },
        };
        self.ops = Ghost(self.ops@.push(Op::Reset(r)));
        r
    }

    /// This backend has no busy signal apart from the bus itself (see
    /// [`Base::HAS_BUSY_SIGNAL`]): the wait returns at once and touches no resource.
    fn wait_busy(&mut self) -> (r: Result<(), Self::Error>)
        ensures
            r is Ok,
            final(self).trace() == old(self).trace(),
            final(self).resources() == old(self).resources(),
    {
        let r = Ok(());
        self.ops = Ghost(self.ops@.push(Op::WaitBusy(r)));
        r
    }

    fn delay_ms(&mut self, ms: u32) -> (r: Result<(), Self::Error>)
        ensures
            r is Ok,
            tied(old(self).trace(), old(self).resources(), final(self).trace(), final(self).resources()),
            final(self).trace() == old(self).trace().push(BusEvent::DelayMs(ms)),
    {
        let ghost t0 = self.trace();
        let ghost r0 = self.resources();
        proof { lemma_tied_start(t0, r0); }
        self.pause_ms(ms, Ghost(t0), Ghost(r0));
        let r = Ok(());
        self.ops = Ghost(self.ops@.push(Op::DelayMs(ms, r)));
        r
    }

    fn delay_us(&mut self, us: u32) -> (r: Result<(), Self::Error>)
        ensures
            r is Ok,
            tied(old(self).trace(), old(self).resources(), final(self).trace(), final(self).resources()),
            final(self).trace() == old(self).trace().push(BusEvent::DelayUs(us)),
    {
        let ghost t0 = self.trace();
        let ghost r0 = self.resources();
        proof { lemma_tied_start(t0, r0); }
        self.pause_us(us, Ghost(t0), Ghost(r0));
        let r = Ok(());
        self.ops = Ghost(self.ops@.push(Op::DelayUs(us, r)));
        r
    }

    fn prefix_read(&mut self, prefix: &[u8], data: &mut [u8]) -> (r: Result<(), Self::Error>)
        ensures
            tied(old(self).trace(), old(self).resources(), final(self).trace(), final(self).resources()),
            read_transaction(
                added(old(self).trace(), final(self).trace()),
                prefix@,
                old(data)@,
                final(data)@,
                r,
            ),
    {
        let ghost t0 = self.trace();
        let ghost r0 = self.resources();
        proof { lemma_tied_start(t0, r0); }
        let low = self.cs_low(Ghost(t0), Ghost(r0));
        let r = match low {
            Err(e) => Err(HalError::Pin(e)),
            Ok(_) => {
                let w = self.bus_write(prefix, Ghost(t0), Ghost(r0));
                let ghost t1 = self.trace();
                let bus = match w {
                    Err(e) => Err(e),
                    Ok(_) => {
                        let x = self.exchange(data, Ghost(t0), Ghost(r0));
                        assert(self.trace() =~= t1.push(self.trace().last()));
                        x
                    },
                };
                let high = self.cs_high(Ghost(t0), Ghost(r0));
                match high {
                    Err(e) => Err(HalError::Pin(e)),
                    Ok(_) => match bus {
                        Err(e) => Err(HalError::Spi(e)),
                        Ok(_) => Ok(()),
                    },
                }
            },
        };
        self.ops = Ghost(self.ops@.push(Op::PrefixRead(prefix@, old(data)@, data@, r)));
        r
    }

    fn prefix_write(&mut self, prefix: &[u8], data: &[u8]) -> (r: Result<(), Self::Error>)
        ensures
            tied(old(self).trace(), old(self).resources(), final(self).trace(), final(self).resources()),
            write_transaction(added(old(self).trace(), final(self).trace()), prefix@, data@, r),
    {
        let ghost t0 = self.trace();
        let ghost r0 = self.resources();
        proof { lemma_tied_start(t0, r0); }
        let low = self.cs_low(Ghost(t0), Ghost(r0));
        let r = match low {
            Err(e) => Err(HalError::Pin(e)),
            Ok(_) => {
                let w = self.bus_write(prefix, Ghost(t0), Ghost(r0));
                let bus = match w {
                    Err(e) => Err(e),
                    Ok(_) => self.bus_write(data, Ghost(t0), Ghost(r0)),
                };
                let high = self.cs_high(Ghost(t0), Ghost(r0));
                match high {
                    Err(e) => Err(HalError::Pin(e)),
                    Ok(_) => match bus {
                        Err(e) => Err(HalError::Spi(e)),
                        Ok(_) => Ok(()),
                    },
                }
            },
        };
        self.ops = Ghost(self.ops@.push(Op::PrefixWrite(prefix@, data@, r)));
        r
    }
}

/// Chip-select brackets every prefixed transaction: it is asserted once, first;
/// when that succeeded it is released once, last; every bus call lies between.
pub proof fn lemma_chip_select_paired<S, P>(
    ev: Seq<BusEvent<S, P>>,
    prefix: Seq<u8>,
    data: Seq<u8>,
    received: Seq<u8>,
    r: Result<(), HalError<S, P, ()>>,
)
    requires
        write_transaction(ev, prefix, data, r) || read_transaction(ev, prefix, data, received, r),
    ensures
        ev[0] is CsLow,
        forall|i: int| 1 <= i < ev.len() ==> !(ev[i] is CsLow),
        ev[0]->CsLow_0 is Err ==> ev.len() == 1,
        ev[0]->CsLow_0 is Ok ==> ev.last() is CsHigh,
        forall|i: int| 0 <= i < ev.len() - 1 ==> !(ev[i] is CsHigh),
        forall|i: int|
            0 <= i < ev.len() && (ev[i] is Write || ev[i] is Transfer) ==> 0 < i < ev.len() - 1,
{
}

/// When the prefix cannot be written, the payload never reaches the bus, chip-select
/// is still released, and the bus failure is returned unless the release failed.
pub proof fn lemma_prefix_failure_stops<S, P>(
    ev: Seq<BusEvent<S, P>>,
    prefix: Seq<u8>,
    data: Seq<u8>,
    received: Seq<u8>,
    r: Result<(), HalError<S, P, ()>>,
)
    requires
        write_transaction(ev, prefix, data, r) || read_transaction(ev, prefix, data, received, r),
        ev[0]->CsLow_0 is Ok,
        ev[1]->Write_1 is Err,
    ensures
        ev.len() == 3,
        ev[1] is Write,
        ev[1]->Write_0 == prefix,
        ev[2] is CsHigh,
        ev[2]->CsHigh_0 is Ok ==> r == Err::<(), HalError<S, P, ()>>(
            HalError::Spi(ev[1]->Write_1->Err_0),
        ),
{
}

} // verus!
