//! Command/data framing, as traces of signals.
//!
//! Each spec function here is the exact trace that one operation of the framer
//! appends to the log. The lemmas say what a listening controller hears in
//! such a trace.

use vstd::prelude::*;
use crate::controller::{
    at_rest, be_bytes, command, datum, decode, high_byte, idle, lemma_run_append,
    lemma_run_empty, lemma_run_push, low_byte, run, tag, Controller, Transaction,
};
use crate::wire::{Line, Signal};

verus! {

/// Microseconds that the bus is given to settle after each transfer, before
/// chip select is released.
pub const SETTLE_MICROS: u64 = 1;

/// A transfer wrapped in chip select: select, transfer, settle, deselect.
pub open spec fn framed(transfer: Signal) -> Seq<Signal> {
    seq![
        Signal::Low(Line::ChipSelect),
        transfer,
        Signal::Micros(SETTLE_MICROS),
        Signal::High(Line::ChipSelect),
    ]
}

/// The trace of one data byte.
pub open spec fn data_frame(byte: u8) -> Seq<Signal> {
    framed(Signal::Bytes(seq![byte]))
}

/// The trace of one command byte: the data/command line goes low for the
/// framed byte and back high after it.
pub open spec fn command_frame(byte: u8) -> Seq<Signal> {
    seq![Signal::Low(Line::DataCommand)] + data_frame(byte) + seq![
        Signal::High(Line::DataCommand),
    ]
}

/// The trace of a 16-bit parameter: two data bytes, upper byte first.
pub open spec fn data16_frames(value: u16) -> Seq<Signal> {
    data_frame(high_byte(value)) + data_frame(low_byte(value))
}

/// The bytes that a transfer puts on the bus; nothing for a signal that is no
/// transfer.
pub open spec fn bytes_of(transfer: Signal) -> Seq<u8> {
    match transfer {
        Signal::Bytes(b) => b,
        Signal::Words(w) => be_bytes(w),
        _ => Seq::empty(),
    }
}

/// Whether a signal is a bus transfer.
pub open spec fn is_transfer(s: Signal) -> bool {
    s is Bytes || s is Words
}

/// A signal that the controller does not listen to: a wait, or a move of the
/// reset or the backlight line.
pub open spec fn is_silent(s: Signal) -> bool {
    match s {
        Signal::Low(line) => line == Line::Reset || line == Line::Backlight,
        Signal::High(line) => line == Line::Reset || line == Line::Backlight,
        Signal::Millis(_) => true,
        Signal::Micros(_) => true,
        _ => false,
    }
}

/// A trace is settled when a controller that was idle before it is at rest
/// after it and has heard nothing out of frame.
pub open spec fn settled(trace: Seq<Signal>) -> bool {
    at_rest(run(idle(), trace)) && run(idle(), trace).clean
}

/// The controller `c` after it has heard the transactions `ts` and nothing
/// else has changed.
pub open spec fn having_heard(c: Controller, ts: Seq<Transaction>) -> Controller {
    Controller { seen: c.seen + ts, ..c }
}

/// The trace says `ts`: whenever a controller at rest listens to it, the
/// controller hears exactly the transactions `ts`, each tagged as `ts` has it,
/// and is left as it was found.
pub open spec fn speaks(trace: Seq<Signal>, ts: Seq<Transaction>) -> bool {
    forall|c: Controller| at_rest(c) ==> #[trigger] run(c, trace) == having_heard(c, ts)
}

/// Concatenation of sequences is associative.
pub proof fn lemma_concat_assoc<A>(a: Seq<A>, b: Seq<A>, c: Seq<A>)
    ensures
        (a + b) + c == a + (b + c),
{
    assert((a + b) + c =~= a + (b + c));
}

/// A framed transfer reaches a deselected controller as one transaction, tagged
/// by the level that the data/command line has at the moment chip select goes
/// low, and leaves the controller deselected again.
pub proof fn lemma_framed(c: Controller, transfer: Signal)
    requires
        c.open is None,
        is_transfer(transfer),
    ensures
        run(c, framed(transfer)) == having_heard(
            c,
            seq![Transaction { kind: tag(c.dc), payload: bytes_of(transfer) }],
        ),
{
    let e = Seq::<Signal>::empty();
    let t1 = e.push(Signal::Low(Line::ChipSelect));
    let t2 = t1.push(transfer);
    let t3 = t2.push(Signal::Micros(SETTLE_MICROS));
    let t4 = t3.push(Signal::High(Line::ChipSelect));
    assert(framed(transfer) =~= t4);
    lemma_run_empty(c);
    lemma_run_push(c, e, Signal::Low(Line::ChipSelect));
    lemma_run_push(c, t1, transfer);
    lemma_run_push(c, t2, Signal::Micros(SETTLE_MICROS));
    lemma_run_push(c, t3, Signal::High(Line::ChipSelect));
    let t = Transaction { kind: tag(c.dc), payload: bytes_of(transfer) };
    assert(Seq::<u8>::empty() + bytes_of(transfer) =~= bytes_of(transfer));
    assert(run(c, t2).open == Some(t));
    assert(c.seen.push(t) =~= c.seen + seq![t]);
}

/// A trace of one silent signal says nothing.
pub proof fn lemma_silent(s: Signal)
    requires
        is_silent(s),
    ensures
        speaks(seq![s], Seq::empty()),
{
    let e = Seq::<Signal>::empty();
    assert(seq![s] =~= e.push(s));
    assert forall|c: Controller| at_rest(c) implies #[trigger] run(c, seq![s]) == having_heard(
        c,
        Seq::empty(),
    ) by {
        lemma_run_empty(c);
        lemma_run_push(c, e, s);
        assert(c.seen + Seq::<Transaction>::empty() =~= c.seen);
    }
}

/// A trace of silent signals says nothing.
pub proof fn lemma_silent_trace(trace: Seq<Signal>)
    requires
        forall|k: int| 0 <= k < trace.len() ==> is_silent(#[trigger] trace[k]),
    ensures
        speaks(trace, Seq::empty()),
    decreases trace.len(),
{
    if trace.len() == 0 {
        lemma_speaks_nothing();
        assert(trace =~= Seq::<Signal>::empty());
    } else {
        lemma_silent_trace(trace.drop_last());
        lemma_silent(trace.last());
        lemma_speaks_append(
            trace.drop_last(),
            Seq::empty(),
            seq![trace.last()],
            Seq::empty(),
        );
        assert(trace.drop_last() + seq![trace.last()] =~= trace);
        assert(Seq::<Transaction>::empty() + Seq::<Transaction>::empty() =~= Seq::<
            Transaction,
        >::empty());
    }
}

/// The empty trace says nothing.
pub proof fn lemma_speaks_nothing()
    ensures
        speaks(Seq::empty(), Seq::empty()),
{
    assert forall|c: Controller| at_rest(c) implies #[trigger] run(c, Seq::<Signal>::empty())
        == having_heard(c, Seq::empty()) by {
        assert(c.seen + Seq::<Transaction>::empty() =~= c.seen);
    }
}

/// What two traces say one after the other, their concatenation says.
pub proof fn lemma_speaks_append(
    first: Seq<Signal>,
    ts_first: Seq<Transaction>,
    second: Seq<Signal>,
    ts_second: Seq<Transaction>,
)
    requires
        speaks(first, ts_first),
        speaks(second, ts_second),
    ensures
        speaks(first + second, ts_first + ts_second),
{
    assert forall|c: Controller| at_rest(c) implies #[trigger] run(c, first + second)
        == having_heard(c, ts_first + ts_second) by {
        lemma_run_append(c, first, second);
        let c1 = run(c, first);
        assert(c1 == having_heard(c, ts_first));
        assert(at_rest(c1));
        assert(run(c1, second) == having_heard(c1, ts_second));
        assert((c.seen + ts_first) + ts_second =~= c.seen + (ts_first + ts_second));
    }
}

/// A data frame says one data byte.
pub proof fn lemma_data_frame(byte: u8)
    ensures
        speaks(data_frame(byte), seq![datum(byte)]),
{
    assert forall|c: Controller| at_rest(c) implies #[trigger] run(c, data_frame(byte))
        == having_heard(c, seq![datum(byte)]) by {
        lemma_framed(c, Signal::Bytes(seq![byte]));
    }
}

/// A command frame says one command byte: the data/command line is low at the
/// moment chip select goes low, and high again when the frame is over.
pub proof fn lemma_command_frame(byte: u8)
    ensures
        speaks(command_frame(byte), seq![command(byte)]),
{
    let down = seq![Signal::Low(Line::DataCommand)];
    let up = seq![Signal::High(Line::DataCommand)];
    let e = Seq::<Signal>::empty();
    assert(down =~= e.push(Signal::Low(Line::DataCommand)));
    assert(up =~= e.push(Signal::High(Line::DataCommand)));
    assert forall|c: Controller| at_rest(c) implies #[trigger] run(c, command_frame(byte))
        == having_heard(c, seq![command(byte)]) by {
        lemma_run_empty(c);
        lemma_run_push(c, e, Signal::Low(Line::DataCommand));
        let c1 = run(c, down);
        assert(c1 == Controller { dc: false, ..c });
        lemma_framed(c1, Signal::Bytes(seq![byte]));
        lemma_run_append(c, down, data_frame(byte));
        let c2 = run(c, down + data_frame(byte));
        lemma_run_append(c, down + data_frame(byte), up);
        lemma_run_empty(c2);
        lemma_run_push(c2, e, Signal::High(Line::DataCommand));
    }
}

/// A 16-bit parameter says two data bytes: the upper byte, then the lower.
pub proof fn lemma_data16_frames(value: u16)
    ensures
        speaks(data16_frames(value), seq![datum(high_byte(value)), datum(low_byte(value))]),
{
    lemma_data_frame(high_byte(value));
    lemma_data_frame(low_byte(value));
    lemma_speaks_append(
        data_frame(high_byte(value)),
        seq![datum(high_byte(value))],
        data_frame(low_byte(value)),
        seq![datum(low_byte(value))],
    );
    assert(seq![datum(high_byte(value))] + seq![datum(low_byte(value))] =~= seq![
        datum(high_byte(value)),
        datum(low_byte(value)),
    ]);
}

/// After a settled trace, a trace that says `ts` adds exactly `ts` to what the
/// controller has heard, and the whole is settled again.
pub proof fn lemma_extend(before: Seq<Signal>, trace: Seq<Signal>, ts: Seq<Transaction>)
    requires
        settled(before),
        speaks(trace, ts),
    ensures
        settled(before + trace),
        decode(before + trace) == decode(before) + ts,
{
    lemma_run_append(idle(), before, trace);
    let c = run(idle(), before);
    assert(run(c, trace) == having_heard(c, ts));
}

/// One call of the framer: a command byte or a data byte.
pub enum Write {
    Command(u8),
    Data(u8),
}

/// The trace of one call of the framer.
pub open spec fn write_frame(w: Write) -> Seq<Signal> {
    match w {
        Write::Command(byte) => command_frame(byte),
        Write::Data(byte) => data_frame(byte),
    }
}

/// The transaction that one call of the framer is meant to be.
pub open spec fn write_transaction(w: Write) -> Transaction {
    match w {
        Write::Command(byte) => command(byte),
        Write::Data(byte) => datum(byte),
    }
}

/// The trace of a run of calls of the framer, in order.
pub open spec fn script_frames(script: Seq<Write>) -> Seq<Signal>
    decreases script.len(),
{
    if script.len() == 0 {
        Seq::empty()
    } else {
        script_frames(script.drop_last()) + write_frame(script.last())
    }
}

/// The transactions that a run of calls of the framer is meant to be.
pub open spec fn script_transactions(script: Seq<Write>) -> Seq<Transaction> {
    Seq::new(script.len(), |i: int| write_transaction(script[i]))
}

/// Any run of command and data writes says what it means: the controller
/// hears one transaction for each write, in order, and each is tagged, by the
/// level of the data/command line at the moment chip select goes low, as the
/// write that made it.
pub proof fn lemma_script_frames(script: Seq<Write>)
    ensures
        speaks(script_frames(script), script_transactions(script)),
    decreases script.len(),
{
    if script.len() == 0 {
        lemma_speaks_nothing();
        assert(script_transactions(script) =~= Seq::<Transaction>::empty());
    } else {
        let w = script.last();
        lemma_script_frames(script.drop_last());
        match w {
            Write::Command(byte) => lemma_command_frame(byte),
            Write::Data(byte) => lemma_data_frame(byte),
        }
        lemma_speaks_append(
            script_frames(script.drop_last()),
            script_transactions(script.drop_last()),
            write_frame(w),
            seq![write_transaction(w)],
        );
        assert(script_transactions(script.drop_last()) + seq![write_transaction(w)]
            =~= script_transactions(script));
    }
}

/// The framing invariant. After a settled trace, any run of command and data
/// writes adds exactly its own transactions, with its own tags, to what the
/// controller has heard, and leaves the trace settled: no write moves the
/// data/command line inside a frame, and none transfers outside one.
pub proof fn lemma_framing(before: Seq<Signal>, script: Seq<Write>)
    requires
        settled(before),
    ensures
        settled(before + script_frames(script)),
        decode(before + script_frames(script)) == decode(before) + script_transactions(script),
{
    lemma_script_frames(script);
    lemma_extend(before, script_frames(script), script_transactions(script));
}

/// Where in the trace of one write chip select goes low.
pub open spec fn select_offset(w: Write) -> int {
    match w {
        Write::Command(_) => 1,
        Write::Data(_) => 0,
    }
}

/// The framing invariant at the line itself. In the trace of a write that
/// follows a settled trace, chip select goes low once; the controller is
/// deselected just before, and the level that the data/command line has at
/// that moment is the tag of the write: low for a command, high for data.
pub proof fn lemma_line_at_select(before: Seq<Signal>, w: Write)
    requires
        settled(before),
    ensures
        ({
            let trace = before + write_frame(w);
            let at = before.len() + select_offset(w);
            let c = run(idle(), trace.take(at));
            &&& 0 <= at < trace.len()
            &&& trace[at] == Signal::Low(Line::ChipSelect)
            &&& c.open is None
            &&& c.clean
            &&& tag(c.dc) == write_transaction(w).kind
        }),
{
    let trace = before + write_frame(w);
    let at = before.len() + select_offset(w);
    match w {
        Write::Command(byte) => {
            let down = Signal::Low(Line::DataCommand);
            assert(trace.take(at) =~= before.push(down));
            lemma_run_push(idle(), before, down);
        },
        Write::Data(byte) => {
            assert(trace.take(at) =~= before);
        },
    }
}

} // verus!
