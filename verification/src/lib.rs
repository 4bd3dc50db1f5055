//! A driver for a small SPI-attached TFT display controller of the ST7735
//! family, written as a verified recorder of bus traffic.
//!
//! The driver never touches hardware itself. Every operation appends to an
//! ordered log of bus operations ([`wire::Op`]): control-line changes, byte and
//! word transfers, and timed waits. Whoever owns the hardware replays that log,
//! in order, on the real bus. What the controller makes of such a log is
//! defined in [`controller`], and the contracts of the driver are stated
//! against it. [`replay`] walks a log on its way to the hardware and stops at
//! the first operation that fails.
//!
//! Beside the display stand three small drivers of the same board, each as
//! the decisions alone: the identifier of the serial flash ([`w25q64`],
//! [`w25q64_hal`]), the debounced push button ([`button`]) and the RGB LED
//! ([`pwm`]).

pub mod button;
pub mod controller;
pub mod framing;
pub mod lcd;
pub mod pwm;
pub mod region;
pub mod replay;
pub mod startup;
pub mod w25q64;
pub mod w25q64_hal;
pub mod wire;
