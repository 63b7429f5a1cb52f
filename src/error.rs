use vstd::prelude::*;

verus! {

/// Failure of an operation, tagged by the resource that failed: the bus, one of
/// the pins, or the delay source. Each variant keeps the resource's own detail.
#[derive(Debug, Clone, PartialEq)]
pub enum HalError<Spi, Pin, Delay> {
    Spi(Spi),
    Pin(Pin),
    Delay(Delay),
}

} // verus!
