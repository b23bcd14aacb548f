//! Abstract serial-bus, chip-select and delay interfaces.
//!
//! The drivers are generic over these traits; the hardware (or a test
//! double) implements them outside the library. Each trait carries a
//! ghost model of the wire: the frames shifted out and the bytes shifted
//! in, so that driver contracts can state exactly what reaches the bus.
//!
//! Bus transactions are modeled as infallible: an implementation that
//! cannot complete a transfer must handle that failure itself (the
//! protocol has no recovery at this layer). The model spec functions
//! default to an empty history; a verified implementation would
//! override them with its own model.

use vstd::prelude::*;

verus! {

/// A synchronous serial bus (SPI-like), exclusively owned by one driver.
pub trait SpiBus: Sized {
    /// Frames shifted out over the bus so far, oldest first.
    open spec fn sent(&self) -> Seq<Seq<u8>> {
        Seq::empty()
    }

    /// Byte sequences shifted in from the device so far, one per
    /// full-duplex transfer, oldest first.
    open spec fn received(&self) -> Seq<Seq<u8>> {
        Seq::empty()
    }

    /// Full-duplex transfer: `buf` is shifted out and replaced by the
    /// bytes the device shifted in. The device chooses those bytes; only
    /// their number is guaranteed.
    fn transfer(&mut self, buf: &mut Vec<u8>)
        ensures
            final(self).sent() == old(self).sent().push(old(buf)@),
            final(self).received() == old(self).received().push(final(buf)@),
            final(buf)@.len() == old(buf)@.len(),
    ;

    /// Write-only transfer: `buf` is shifted out, the response is ignored.
    fn send(&mut self, buf: &Vec<u8>)
        ensures
            final(self).sent() == old(self).sent().push(buf@),
            final(self).received() == old(self).received(),
    ;
}

/// An active-low chip-select (or DAC "sync") line.
pub trait ChipSelect: Sized {
    /// Whether the line is currently driven high (deasserted).
    open spec fn is_high(&self) -> bool {
        true
    }

    fn set_high(&mut self)
        ensures
            final(self).is_high(),
    ;

    fn set_low(&mut self)
        ensures
            !final(self).is_high(),
    ;
}

/// A blocking delay source with microsecond granularity.
pub trait DelayUs: Sized {
    /// Microseconds of blocking delay performed so far.
    open spec fn delayed_us(&self) -> nat {
        0
    }

    /// Blocks for at least `us` microseconds.
    fn delay_us(&mut self, us: u16)
        ensures
            final(self).delayed_us() == old(self).delayed_us() + us,
    ;
}

} // verus!
