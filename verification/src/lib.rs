//! WS2812/NeoPixel driver core for the nRF52 family's PWM peripheral.
//!
//! The PWM engine is used in DMA-fed sequence mode: each protocol bit becomes
//! one 20-tick PWM period whose duty cycle selects a logical one or zero, and
//! an arbitrarily long run of colors is streamed through the peripheral's two
//! sequence channels with double-buffered refills.
//!
//! The hardware register block is abstracted as the [`Instance`] trait; the
//! driver [`Pwm`] is verified against that interface, and [`SimPwm`] is a
//! software register block that implements it, so the whole streaming engine
//! can be exercised off-target.

use vstd::prelude::*;

pub mod encode;
pub mod hw;
pub mod pwm;

pub use encode::fill_buf;
pub use hw::{HwState, Instance, PinId, SimPwm, SRAM_LOWER, SRAM_UPPER};
pub use pwm::{u16s_needed_ct, u16s_needed_slice, Pwm};

verus! {

/// One color of an addressable LED: three independent 8-bit channels.
#[derive(Clone, Copy, PartialEq, Eq, Structural, Debug)]
pub struct Rgb8 {
    pub r: u8,
    pub g: u8,
    pub b: u8,
}

/// Everything that can abort a write. No error is retried internally; all are
/// surfaced to the caller before (or instead of) touching the hardware.
#[derive(Clone, Copy, PartialEq, Eq, Structural, Debug)]
pub enum Error {
    /// A destination buffer lacks capacity for the required symbols.
    BufferTooSmall,
    /// An attempt to start a zero-length DMA transfer.
    EmptyTransfer,
    /// A buffer address outside the DMA-addressable memory window.
    OutOfRangePointer,
    /// A color-producing sequence yielded a value after it had already
    /// signalled its end.
    MalformedSequence,
}

} // verus!
