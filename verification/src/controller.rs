//! What the display controller makes of a log of bus operations.
//!
//! The controller is a pure listener. While chip select is low it collects the
//! bytes that pass on the bus into one transaction, and it tags that
//! transaction by the level that the data/command line had at the moment chip
//! select went low. Reset, backlight and waits do not change what it hears.

use vstd::prelude::*;
use crate::wire::{Line, Signal};

verus! {

/// How the controller takes a transaction: as an opcode, or as parameter and
/// pixel bytes.
#[derive(Clone, Copy, Debug, PartialEq, Eq, Structural)]
pub enum Kind {
    Command,
    Data,
}

/// One unit of traffic as the controller hears it: every byte that passed
/// while chip select was low, with the tag sampled when it went low.
pub struct Transaction {
    pub kind: Kind,
    pub payload: Seq<u8>,
}

/// A command transaction of one opcode byte.
pub open spec fn command(byte: u8) -> Transaction {
    Transaction { kind: Kind::Command, payload: seq![byte] }
}

/// A data transaction of one parameter byte.
pub open spec fn datum(byte: u8) -> Transaction {
    Transaction { kind: Kind::Data, payload: seq![byte] }
}

/// A data transaction of 16-bit pixel values, each sent upper byte first.
pub open spec fn pixels(words: Seq<u16>) -> Transaction {
    Transaction { kind: Kind::Data, payload: be_bytes(words) }
}

/// The listening controller.
pub struct Controller {
    /// Level of the data/command line; `true` is high.
    pub dc: bool,
    /// The transaction in progress; `None` while chip select is high.
    pub open: Option<Transaction>,
    /// The transactions completed so far, oldest first.
    pub seen: Seq<Transaction>,
    /// Stays `true` as long as the data/command line never moved during a
    /// transaction and no transfer happened outside one.
    pub clean: bool,
}

/// The upper eight bits of a 16-bit value.
pub open spec fn high_byte(v: u16) -> u8 {
    (v / 256) as u8
}

/// The lower eight bits of a 16-bit value.
pub open spec fn low_byte(v: u16) -> u8 {
    (v % 256) as u8
}

/// The bytes that a transfer of 16-bit frames puts on the bus: each word's
/// upper byte, then its lower byte.
pub open spec fn be_bytes(words: Seq<u16>) -> Seq<u8> {
    Seq::new(
        2 * words.len(),
        |i: int| if i % 2 == 0 { high_byte(words[i / 2]) } else { low_byte(words[i / 2]) },
    )
}

/// The tag that a transaction gets when chip select goes low while the
/// data/command line is at `dc`.
pub open spec fn tag(dc: bool) -> Kind {
    if dc { Kind::Data } else { Kind::Command }
}

/// The controller as the driver finds it: deselected, data/command line high,
/// nothing heard yet.
pub open spec fn idle() -> Controller {
    Controller { dc: true, open: None, seen: Seq::empty(), clean: true }
}

/// Between transactions, with the data/command line in its resting "data"
/// state.
pub open spec fn at_rest(c: Controller) -> bool {
    c.dc && c.open is None
}

/// The controller after `bytes` pass on the bus.
pub open spec fn hear(c: Controller, bytes: Seq<u8>) -> Controller {
    match c.open {
        Some(t) => Controller {
            open: Some(Transaction { kind: t.kind, payload: t.payload + bytes }),
            ..c
        },
        None => Controller { clean: false, ..c },
    }
}

/// The controller after the data/command line is driven to `level`.
pub open spec fn turn(c: Controller, level: bool) -> Controller {
    Controller { dc: level, clean: c.clean && (c.open is None || c.dc == level), ..c }
}

/// The controller after chip select is driven to `level`.
pub open spec fn select(c: Controller, level: bool) -> Controller {
    match c.open {
        Some(t) => if level {
            Controller { open: None, seen: c.seen.push(t), ..c }
        } else {
            c
        },
        None => if level {
            c
        } else {
            Controller {
                open: Some(Transaction { kind: tag(c.dc), payload: Seq::empty() }),
                ..c
            }
        },
    }
}

/// The controller after one signal.
pub open spec fn step(c: Controller, s: Signal) -> Controller {
    match s {
        Signal::Low(line) => match line {
            Line::ChipSelect => select(c, false),
            Line::DataCommand => turn(c, false),
            _ => c,
        },
        Signal::High(line) => match line {
            Line::ChipSelect => select(c, true),
            Line::DataCommand => turn(c, true),
            _ => c,
        },
        Signal::Bytes(b) => hear(c, b),
        Signal::Words(w) => hear(c, be_bytes(w)),
        Signal::Millis(_) => c,
        Signal::Micros(_) => c,
    }
}

/// The controller after a whole trace, starting from `c`.
pub open spec fn run(c: Controller, trace: Seq<Signal>) -> Controller
    decreases trace.len(),
{
    if trace.len() == 0 {
        c
    } else {
        step(run(c, trace.drop_last()), trace.last())
    }
}

/// The transactions that a controller, idle at first, hears in `trace`.
pub open spec fn decode(trace: Seq<Signal>) -> Seq<Transaction> {
    run(idle(), trace).seen
}

/// Running an empty trace changes nothing.
pub proof fn lemma_run_empty(c: Controller)
    ensures
        run(c, Seq::<Signal>::empty()) == c,
{
}

/// Running a trace extended by one signal is one step after running the trace.
pub proof fn lemma_run_push(c: Controller, trace: Seq<Signal>, s: Signal)
    ensures
        run(c, trace.push(s)) == step(run(c, trace), s),
{
    assert(trace.push(s).drop_last() =~= trace);
}

/// Running two traces one after the other is running their concatenation.
pub proof fn lemma_run_append(c: Controller, first: Seq<Signal>, second: Seq<Signal>)
    ensures
        run(c, first + second) == run(run(c, first), second),
    decreases second.len(),
{
    if second.len() == 0 {
        assert(first + second =~= first);
    } else {
        lemma_run_append(c, first, second.drop_last());
        assert((first + second).drop_last() =~= first + second.drop_last());
    }
}

/// The two bytes of a 16-bit value are its upper eight bits and its lower
/// eight bits, as shifts and masks give them.
pub proof fn lemma_bytes_of_word(v: u16)
    ensures
        high_byte(v) == ((v >> 8) & 0xFF) as u8,
        low_byte(v) == (v & 0xFF) as u8,
        v == high_byte(v) as int * 256 + low_byte(v) as int,
{
    assert(v / 256 == (v >> 8) & 0xFF) by (bit_vector);
    assert(v % 256 == v & 0xFF) by (bit_vector);
    assert(v / 256 < 256) by (bit_vector);
}

} // verus!
