//! The vocabulary of the bus: control lines, and the operations that a driver
//! asks the owner of the hardware to perform.

use vstd::prelude::*;

verus! {

/// One of the four binary output lines beside the serial bus.
#[derive(Clone, Copy, Debug, PartialEq, Eq, Structural)]
pub enum Line {
    /// Data/command select: low tags a transfer as a command, high as data.
    DataCommand,
    /// Hardware reset of the controller, active low.
    Reset,
    /// Chip select, active low.
    ChipSelect,
    /// Backlight enable, active high.
    Backlight,
}

/// One operation on the hardware, as the driver records it.
#[derive(Debug, PartialEq, Eq)]
pub enum Op {
    /// Drive a line low.
    SetLow(Line),
    /// Drive a line high.
    SetHigh(Line),
    /// One bus transfer of 8-bit frames.
    WriteBytes(Vec<u8>),
    /// One bus transfer of 16-bit frames, most significant bit first.
    WriteWords(Vec<u16>),
    /// Wait at least this many milliseconds.
    WaitMillis(u64),
    /// Wait at least this many microseconds.
    WaitMicros(u64),
}

/// The mathematical value of an [`Op`].
pub enum Signal {
    Low(Line),
    High(Line),
    Bytes(Seq<u8>),
    Words(Seq<u16>),
    Millis(u64),
    Micros(u64),
}

impl View for Op {
    type V = Signal;

    open spec fn view(&self) -> Signal {
        match *self {
            Op::SetLow(l) => Signal::Low(l),
            Op::SetHigh(l) => Signal::High(l),
            Op::WriteBytes(b) => Signal::Bytes(b@),
            Op::WriteWords(w) => Signal::Words(w@),
            Op::WaitMillis(n) => Signal::Millis(n),
            Op::WaitMicros(n) => Signal::Micros(n),
        }
    }
}

/// The mathematical value of a log of operations.
pub open spec fn signals(ops: Seq<Op>) -> Seq<Signal> {
    ops.map_values(|o: Op| o@)
}

/// Appending one operation to a log appends its value to the log's value.
pub proof fn lemma_signals_push(ops: Seq<Op>, op: Op)
    ensures
        signals(ops.push(op)) == signals(ops).push(op@),
{
    assert(signals(ops.push(op)) =~= signals(ops).push(op@));
}

} // verus!
