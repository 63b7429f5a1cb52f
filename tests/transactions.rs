use std::cell::RefCell;
use std::collections::VecDeque;
use std::rc::Rc;

use radio_hal::frame::{masked, read_prefix, write_prefix, FIFO_READ, FIFO_WRITE};
use radio_hal::{Base, Delay, Hal, HalError, OutputLine, SpiBase};

#[derive(Debug, Clone, PartialEq)]
enum Ev {
    CsLow,
    CsHigh,
    SdnLow,
    SdnHigh,
    Write(Vec<u8>),
    Transfer(Vec<u8>),
    DelayMs(u32),
    DelayUs(u32),
}

#[derive(Debug, Clone, Copy, PartialEq)]
struct SpiErr(u8);

#[derive(Debug, Clone, Copy, PartialEq)]
struct PinErr(u8);

/// A device with a register file, or a FIFO that echoes what was written.
struct Dev {
    log: Vec<Ev>,
    regs: Vec<u8>,
    fifo: VecDeque<u8>,
    echo: bool,
    frame: Option<u8>,
    fail_write: Option<usize>,
    writes: usize,
    fail_transfer: bool,
    fail_cs_low: bool,
    fail_cs_high: bool,
    fail_sdn_low: bool,
    fail_sdn_high: bool,
}

type Shared = Rc<RefCell<Dev>>;

struct Bus(Shared);
struct Cs(Shared);
struct Sdn(Shared);
struct Timer(Shared);

impl SpiBase for Bus {
    type Error = SpiErr;

    fn write(&mut self, words: &[u8]) -> Result<(), SpiErr> {
        let mut d = self.0.borrow_mut();
        d.log.push(Ev::Write(words.to_vec()));
        d.writes += 1;
        if d.fail_write == Some(d.writes) {
            return Err(SpiErr(1));
        }
        match d.frame {
            None => d.frame = Some(words[0]),
            Some(f) => {
                if d.echo {
                    d.fifo.extend(words.iter().copied());
                } else {
                    let a = (f & 0x7F) as usize;
                    for (i, b) in words.iter().enumerate() {
                        d.regs[a + i] = *b;
                    }
                }
            }
        }
        Ok(())
    }

    fn transfer(&mut self, words: &mut [u8]) -> Result<(), SpiErr> {
        let mut d = self.0.borrow_mut();
        d.log.push(Ev::Transfer(words.to_vec()));
        if d.fail_transfer {
            return Err(SpiErr(2));
        }
        let a = (d.frame.unwrap_or(0) & 0x7F) as usize;
        for i in 0..words.len() {
            words[i] = if d.echo { d.fifo.pop_front().unwrap_or(0) } else { d.regs[a + i] };
        }
        Ok(())
    }
}

impl OutputLine for Cs {
    type Error = PinErr;

    fn set_low(&mut self) -> Result<(), PinErr> {
        let mut d = self.0.borrow_mut();
        d.log.push(Ev::CsLow);
        if d.fail_cs_low { Err(PinErr(1)) } else { Ok(()) }
    }

    fn set_high(&mut self) -> Result<(), PinErr> {
        let mut d = self.0.borrow_mut();
        d.log.push(Ev::CsHigh);
        d.frame = None;
        if d.fail_cs_high { Err(PinErr(2)) } else { Ok(()) }
    }
}

impl OutputLine for Sdn {
    type Error = PinErr;

    fn set_low(&mut self) -> Result<(), PinErr> {
        let mut d = self.0.borrow_mut();
        d.log.push(Ev::SdnLow);
        if d.fail_sdn_low { Err(PinErr(3)) } else { Ok(()) }
    }

    fn set_high(&mut self) -> Result<(), PinErr> {
        let mut d = self.0.borrow_mut();
        d.log.push(Ev::SdnHigh);
        if d.fail_sdn_high { Err(PinErr(4)) } else { Ok(()) }
    }
}

impl Delay for Timer {
    fn delay_ms(&mut self, ms: u32) {
        self.0.borrow_mut().log.push(Ev::DelayMs(ms));
    }

    fn delay_us(&mut self, us: u32) {
        self.0.borrow_mut().log.push(Ev::DelayUs(us));
    }
}

fn device(echo: bool) -> (Shared, Base<Bus, Cs, Sdn, Timer>) {
    let d = Rc::new(RefCell::new(Dev {
        log: Vec::new(),
        regs: vec![0u8; 256],
        fifo: VecDeque::new(),
        echo,
        frame: None,
        fail_write: None,
        writes: 0,
        fail_transfer: false,
        fail_cs_low: false,
        fail_cs_high: false,
        fail_sdn_low: false,
        fail_sdn_high: false,
    }));
    let base = Base::new(Bus(d.clone()), Cs(d.clone()), Sdn(d.clone()), Timer(d.clone()));
    (d, base)
}

fn log(d: &Shared) -> Vec<Ev> {
    d.borrow().log.clone()
}

#[test]
fn framing_bytes() {
    assert_eq!(read_prefix(0x07), 0x07);
    assert_eq!(write_prefix(0x07), 0x87);
    assert_eq!(read_prefix(0x00), 0x00);
    assert_eq!(read_prefix(0x80), 0x00);
    assert_eq!(write_prefix(0x00), 0x80);
    assert_eq!(write_prefix(0x80), 0x80);
    assert_eq!(read_prefix(0xFF), 0x7F);
    assert_eq!(FIFO_READ, 0x00);
    assert_eq!(FIFO_WRITE, 0x80);
}

#[test]
fn masked_update_values() {
    assert_eq!(masked(0b1010_1010, 0x0F, 0x05), 0b1010_0101);
    assert_eq!(masked(0x12, 0xFF, 0x34), 0x34);
    assert_eq!(masked(0x12, 0x00, 0x34), 0x12);
    assert_eq!(masked(0xFF, 0xF0, 0x00), 0x0F);
}

#[test]
fn read_reg_frames_address_with_direction_clear() {
    let (d, mut base) = device(false);
    d.borrow_mut().regs[0x07] = 0x5A;
    assert_eq!(base.read_reg(0x07), Ok(0x5A));
    assert_eq!(
        log(&d),
        vec![Ev::CsLow, Ev::Write(vec![0x07]), Ev::Transfer(vec![0x00]), Ev::CsHigh]
    );
}

#[test]
fn write_reg_frames_address_with_direction_set() {
    let (d, mut base) = device(false);
    assert_eq!(base.write_reg(0x07, 0x3C), Ok(()));
    assert_eq!(
        log(&d),
        vec![Ev::CsLow, Ev::Write(vec![0x87]), Ev::Write(vec![0x3C]), Ev::CsHigh]
    );
    assert_eq!(d.borrow().regs[0x07], 0x3C);
}

#[test]
fn top_bit_of_address_is_masked() {
    let (d, mut base) = device(false);
    d.borrow_mut().regs[0x00] = 0x11;
    assert_eq!(base.read_reg(0x80), Ok(0x11));
    assert_eq!(base.read_reg(0x00), Ok(0x11));
    assert_eq!(base.write_reg(0x80, 0x22), Ok(()));
    assert_eq!(base.write_reg(0x00, 0x22), Ok(()));
    let frames: Vec<Ev> = log(&d)
        .into_iter()
        .filter(|e| matches!(e, Ev::Write(w) if w.len() == 1 && (w[0] == 0x00 || w[0] == 0x80)))
        .collect();
    assert_eq!(
        frames,
        vec![
            Ev::Write(vec![0x00]),
            Ev::Write(vec![0x00]),
            Ev::Write(vec![0x80]),
            Ev::Write(vec![0x80]),
        ]
    );
}

#[test]
fn update_reg_keeps_bits_outside_mask() {
    let (d, mut base) = device(false);
    d.borrow_mut().regs[0x10] = 0b1010_1010;
    assert_eq!(base.update_reg(0x10, 0x0F, 0x05), Ok(0b1010_0101));
    assert_eq!(d.borrow().regs[0x10], 0b1010_0101);
    assert_eq!(base.read_reg(0x10), Ok(0b1010_0101));
}

#[test]
fn update_reg_stops_when_read_fails() {
    let (d, mut base) = device(false);
    d.borrow_mut().fail_transfer = true;
    assert_eq!(base.update_reg(0x10, 0xFF, 0x01), Err(HalError::Spi(SpiErr(2))));
    assert_eq!(
        log(&d),
        vec![Ev::CsLow, Ev::Write(vec![0x10]), Ev::Transfer(vec![0x00]), Ev::CsHigh]
    );
}

#[test]
fn register_round_trip() {
    let (_d, mut base) = device(false);
    for a in [0u8, 1, 0x42, 127] {
        assert_eq!(base.write_reg(a, a ^ 0xA5), Ok(()));
        assert_eq!(base.read_reg(a), Ok(a ^ 0xA5));
    }
}

#[test]
fn multi_register_round_trip() {
    let (_d, mut base) = device(false);
    assert_eq!(base.write_regs(0x20, &[1, 2, 3, 4]), Ok(()));
    let mut out = [9u8; 4];
    assert_eq!(base.read_regs(0x20, &mut out), Ok(()));
    assert_eq!(out, [1, 2, 3, 4]);
}

#[test]
fn fifo_round_trip() {
    let (d, mut base) = device(true);
    let data = [0xDE, 0xAD, 0xBE, 0xEF, 0x01];
    assert_eq!(base.write_buff(&data), Ok(()));
    let mut out = [0u8; 5];
    assert_eq!(base.read_buff(&mut out), Ok(()));
    assert_eq!(out, data);
    let l = log(&d);
    assert_eq!(l[1], Ev::Write(vec![0x80]));
    assert_eq!(l[5], Ev::Write(vec![0x00]));
}

#[test]
fn fifo_read_sends_buffer_contents() {
    let (d, mut base) = device(true);
    let mut out = [7u8, 8, 9];
    assert_eq!(base.read_buff(&mut out), Ok(()));
    assert_eq!(log(&d)[2], Ev::Transfer(vec![7, 8, 9]));
    assert_eq!(out, [0, 0, 0]);
}

#[test]
fn chip_select_paired_on_success_and_failure() {
    for fail in [None, Some(1), Some(2)] {
        let (d, mut base) = device(false);
        d.borrow_mut().fail_write = fail;
        let _ = base.write_regs(0x01, &[5, 6]);
        let l = log(&d);
        assert_eq!(l.iter().filter(|e| **e == Ev::CsLow).count(), 1);
        assert_eq!(l.iter().filter(|e| **e == Ev::CsHigh).count(), 1);
        assert_eq!(l.first(), Some(&Ev::CsLow));
        assert_eq!(l.last(), Some(&Ev::CsHigh));
    }
}

#[test]
fn prefix_failure_skips_payload() {
    let (d, mut base) = device(false);
    d.borrow_mut().fail_write = Some(1);
    assert_eq!(base.write_reg(0x05, 0x77), Err(HalError::Spi(SpiErr(1))));
    assert_eq!(log(&d), vec![Ev::CsLow, Ev::Write(vec![0x85]), Ev::CsHigh]);

    let (d, mut base) = device(false);
    d.borrow_mut().fail_write = Some(1);
    let mut out = [0u8; 2];
    assert_eq!(base.read_regs(0x05, &mut out), Err(HalError::Spi(SpiErr(1))));
    assert_eq!(log(&d), vec![Ev::CsLow, Ev::Write(vec![0x05]), Ev::CsHigh]);
}

#[test]
fn payload_failure_is_bus_error() {
    let (d, mut base) = device(false);
    d.borrow_mut().fail_write = Some(2);
    assert_eq!(base.write_reg(0x05, 0x77), Err(HalError::Spi(SpiErr(1))));
    assert_eq!(d.borrow().regs[0x05], 0);
}

#[test]
fn failed_transfer_leaves_buffer() {
    let (d, mut base) = device(false);
    d.borrow_mut().regs[0x03] = 0x44;
    d.borrow_mut().fail_transfer = true;
    let mut out = [1u8, 2];
    assert_eq!(base.read_regs(0x03, &mut out), Err(HalError::Spi(SpiErr(2))));
    assert_eq!(out, [1, 2]);
}

#[test]
fn chip_select_assert_failure_is_pin_error() {
    let (d, mut base) = device(false);
    d.borrow_mut().fail_cs_low = true;
    assert_eq!(base.write_reg(0x05, 0x77), Err(HalError::Pin(PinErr(1))));
    assert_eq!(log(&d), vec![Ev::CsLow]);
}

#[test]
fn chip_select_release_failure_wins() {
    let (d, mut base) = device(false);
    d.borrow_mut().fail_cs_high = true;
    d.borrow_mut().fail_write = Some(1);
    assert_eq!(base.write_reg(0x05, 0x77), Err(HalError::Pin(PinErr(2))));
    assert_eq!(log(&d), vec![Ev::CsLow, Ev::Write(vec![0x85]), Ev::CsHigh]);
}

#[test]
fn reset_sequence_in_order() {
    let (d, mut base) = device(false);
    assert_eq!(base.reset(), Ok(()));
    assert_eq!(log(&d), vec![Ev::SdnLow, Ev::DelayMs(1), Ev::SdnHigh, Ev::DelayMs(10)]);
}

#[test]
fn reset_stops_when_pin_low_fails() {
    let (d, mut base) = device(false);
    d.borrow_mut().fail_sdn_low = true;
    assert_eq!(base.reset(), Err(HalError::Pin(PinErr(3))));
    assert_eq!(log(&d), vec![Ev::SdnLow]);
}

#[test]
fn reset_stops_when_pin_high_fails() {
    let (d, mut base) = device(false);
    d.borrow_mut().fail_sdn_high = true;
    assert_eq!(base.reset(), Err(HalError::Pin(PinErr(4))));
    assert_eq!(log(&d), vec![Ev::SdnLow, Ev::DelayMs(1), Ev::SdnHigh]);
}

#[test]
fn delays_forward_and_busy_wait_is_idle() {
    let (d, mut base) = device(false);
    assert_eq!(base.delay_ms(5), Ok(()));
    assert_eq!(base.delay_us(250), Ok(()));
    assert_eq!(base.wait_busy(), Ok(()));
    assert_eq!(log(&d), vec![Ev::DelayMs(5), Ev::DelayUs(250)]);
    assert!(!Base::<Bus, Cs, Sdn, Timer>::HAS_BUSY_SIGNAL);
}

#[test]
fn raw_prefixed_write() {
    let (d, mut base) = device(false);
    assert_eq!(base.prefix_write(&[0x83], &[0xAA, 0xBB]), Ok(()));
    assert_eq!(d.borrow().regs[3], 0xAA);
    assert_eq!(d.borrow().regs[4], 0xBB);
}
