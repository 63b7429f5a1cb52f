//! Register and FIFO access to a radio transceiver over a serial bus.
//!
//! The [`hal::Hal`] trait states the primitives a backend supplies and derives the
//! register and buffer operations from them; [`base::Base`] is a backend built from
//! a bus, a chip-select line, a shutdown line and a delay source. [`device`] models
//! a register file and a FIFO, and states what the operations achieve on them.
pub mod base;
pub mod device;
pub mod error;
pub mod frame;
pub mod hal;

pub use base::{Base, BaseError, BusEvent, Delay, OutputLine, Resources, SpiBase, SpiCall, Wait};
pub use error::HalError;
pub use hal::{Hal, Op};
