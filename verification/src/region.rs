//! Writing a region of the panel: the addressing window, the solid fill in
//! bounded chunks, and the whole-panel image.

use vstd::prelude::*;
use crate::controller::{
    at_rest, command, datum, high_byte, low_byte, pixels, run, Controller, Transaction,
};
use crate::framing::{
    command_frame, data16_frames, framed, having_heard, is_transfer, lemma_command_frame,
    lemma_data16_frames, lemma_framed, lemma_speaks_append, lemma_speaks_nothing, speaks,
    SETTLE_MICROS,
};
use crate::wire::{Line, Signal};

verus! {

/// Opcode: set the first and last column of the addressing window.
pub const COLUMN_ADDRESS_SET: u8 = 0x2A;

/// Opcode: set the first and last row of the addressing window.
pub const ROW_ADDRESS_SET: u8 = 0x2B;

/// Opcode: the data that follows is a stream of pixels into the window.
pub const MEMORY_WRITE: u8 = 0x2C;

/// Rows of controller memory above the first visible row of the panel.
pub const ROW_OFFSET: u16 = 24;

/// Columns of the panel.
pub const WIDTH: u16 = 160;

/// Rows of the panel.
pub const HEIGHT: u16 = 80;

/// Pixels of the panel.
pub const PANEL_PIXELS: usize = 12800;

/// The most pixel values that go out in one transfer of a solid fill.
pub const CHUNK_PIXELS: usize = 32;

/// The row of controller memory that holds the visible row `y`.
pub open spec fn memory_row(y: u16) -> u16 {
    (y + ROW_OFFSET) as u16
}

/// The rows that the addressing window takes: those that the row offset
/// leaves within sixteen bits.
pub open spec fn window_admits(y_start: u16, y_end: u16) -> bool {
    y_start + ROW_OFFSET <= u16::MAX && y_end + ROW_OFFSET <= u16::MAX
}

/// The trace that programs the addressing window to the columns `x_start` to
/// `x_end` and the visible rows `y_start` to `y_end`, both ends included, and
/// opens the pixel stream.
pub open spec fn window_frames(x_start: u16, y_start: u16, x_end: u16, y_end: u16) -> Seq<Signal> {
    command_frame(COLUMN_ADDRESS_SET) + data16_frames(x_start) + data16_frames(x_end)
        + command_frame(ROW_ADDRESS_SET) + data16_frames(memory_row(y_start)) + data16_frames(
        memory_row(y_end),
    ) + command_frame(MEMORY_WRITE)
}

/// What the controller hears of [`window_frames`]: three commands, the first
/// two with a start and an end of two bytes each; columns as given, rows moved
/// down by the panel's offset.
pub open spec fn window_transactions(
    x_start: u16,
    y_start: u16,
    x_end: u16,
    y_end: u16,
) -> Seq<Transaction> {
    seq![
        command(COLUMN_ADDRESS_SET),
        datum(high_byte(x_start)),
        datum(low_byte(x_start)),
        datum(high_byte(x_end)),
        datum(low_byte(x_end)),
        command(ROW_ADDRESS_SET),
        datum(high_byte(memory_row(y_start))),
        datum(low_byte(memory_row(y_start))),
        datum(high_byte(memory_row(y_end))),
        datum(low_byte(memory_row(y_end))),
        command(MEMORY_WRITE),
    ]
}

/// The window trace says the column range as given and the row range moved
/// down by the panel's offset, each bound upper byte first, and then opens the
/// pixel stream.
pub proof fn lemma_window_frames(x_start: u16, y_start: u16, x_end: u16, y_end: u16)
    ensures
        speaks(
            window_frames(x_start, y_start, x_end, y_end),
            window_transactions(x_start, y_start, x_end, y_end),
        ),
{
    let row_start = memory_row(y_start);
    let row_end = memory_row(y_end);
    lemma_command_frame(COLUMN_ADDRESS_SET);
    lemma_data16_frames(x_start);
    lemma_data16_frames(x_end);
    lemma_command_frame(ROW_ADDRESS_SET);
    lemma_data16_frames(row_start);
    lemma_data16_frames(row_end);
    lemma_command_frame(MEMORY_WRITE);
    let t1 = seq![command(COLUMN_ADDRESS_SET)];
    let t2 = seq![datum(high_byte(x_start)), datum(low_byte(x_start))];
    let t3 = seq![datum(high_byte(x_end)), datum(low_byte(x_end))];
    let t4 = seq![command(ROW_ADDRESS_SET)];
    let t5 = seq![datum(high_byte(row_start)), datum(low_byte(row_start))];
    let t6 = seq![datum(high_byte(row_end)), datum(low_byte(row_end))];
    let t7 = seq![command(MEMORY_WRITE)];
    let s1 = command_frame(COLUMN_ADDRESS_SET);
    let s2 = s1 + data16_frames(x_start);
    let s3 = s2 + data16_frames(x_end);
    let s4 = s3 + command_frame(ROW_ADDRESS_SET);
    let s5 = s4 + data16_frames(row_start);
    let s6 = s5 + data16_frames(row_end);
    lemma_speaks_append(s1, t1, data16_frames(x_start), t2);
    lemma_speaks_append(s2, t1 + t2, data16_frames(x_end), t3);
    lemma_speaks_append(s3, t1 + t2 + t3, command_frame(ROW_ADDRESS_SET), t4);
    lemma_speaks_append(s4, t1 + t2 + t3 + t4, data16_frames(row_start), t5);
    lemma_speaks_append(s5, t1 + t2 + t3 + t4 + t5, data16_frames(row_end), t6);
    lemma_speaks_append(s6, t1 + t2 + t3 + t4 + t5 + t6, command_frame(MEMORY_WRITE), t7);
    assert(t1 + t2 + t3 + t4 + t5 + t6 + t7 =~= window_transactions(
        x_start,
        y_start,
        x_end,
        y_end,
    ));
}

/// The number of pixels in the half-open rectangle from (`x_start`,
/// `y_start`) to (`x_end`, `y_end`).
pub open spec fn pixel_count(x_start: u16, y_start: u16, x_end: u16, y_end: u16) -> nat {
    ((x_end - x_start) * (y_end - y_start)) as nat
}

/// The rectangles that a solid fill takes: each end at least one and not
/// before its start, the rows within what the row offset leaves of sixteen
/// bits, and a pixel count that fits in sixteen bits.
pub open spec fn fill_admits(x_start: u16, y_start: u16, x_end: u16, y_end: u16) -> bool {
    &&& 1 <= x_end
    &&& 1 <= y_end
    &&& x_start <= x_end
    &&& y_start <= y_end
    &&& y_start + ROW_OFFSET <= u16::MAX
    &&& y_end - 1 + ROW_OFFSET <= u16::MAX
    &&& (x_end - x_start) * (y_end - y_start) <= u16::MAX
}

/// `n` pixel values, all `color`.
pub open spec fn solid(n: nat, color: u16) -> Seq<u16> {
    Seq::new(n, |i: int| color)
}

/// The size of the next chunk when `remain` pixel values are still to go.
pub open spec fn chunk_len(remain: nat) -> nat {
    if remain < CHUNK_PIXELS {
        remain
    } else {
        CHUNK_PIXELS as nat
    }
}

/// The trace of one chunk of a solid fill: one framed transfer of `n` words.
pub open spec fn chunk_frame(n: nat, color: u16) -> Seq<Signal> {
    framed(Signal::Words(solid(n, color)))
}

/// The trace that streams `count` pixel values of `color`: full chunks first,
/// then what is left, and nothing at all for no pixels.
pub open spec fn fill_stream(count: nat, color: u16) -> Seq<Signal>
    decreases count,
{
    if count == 0 {
        Seq::empty()
    } else {
        chunk_frame(chunk_len(count), color) + fill_stream(
            (count - chunk_len(count)) as nat,
            color,
        )
    }
}

/// The trace of a solid fill of the half-open rectangle from (`x_start`,
/// `y_start`) to (`x_end`, `y_end`): the window with each end moved in by one,
/// then one pixel value for each pixel.
pub open spec fn fill_trace(
    x_start: u16,
    y_start: u16,
    x_end: u16,
    y_end: u16,
    color: u16,
) -> Seq<Signal> {
    window_frames(x_start, y_start, (x_end - 1) as u16, (y_end - 1) as u16) + fill_stream(
        pixel_count(x_start, y_start, x_end, y_end),
        color,
    )
}

/// The number of chunks that `count` pixel values go out in.
pub open spec fn chunk_count(count: nat) -> nat {
    (count + CHUNK_PIXELS - 1) as nat / CHUNK_PIXELS as nat
}

/// The size of chunk `i` of `count` pixel values.
pub open spec fn chunk_size(count: nat, i: int) -> nat {
    if (i + 1) * CHUNK_PIXELS <= count {
        CHUNK_PIXELS as nat
    } else {
        (count - i * CHUNK_PIXELS) as nat
    }
}

/// What the controller hears of [`fill_stream`]: one data transaction for each
/// chunk, holding that chunk's pixel values.
pub open spec fn fill_transactions(count: nat, color: u16) -> Seq<Transaction> {
    Seq::new(chunk_count(count), |i: int| pixels(solid(chunk_size(count, i), color)))
}

/// What the controller hears of [`fill_trace`].
pub open spec fn fill_heard(
    x_start: u16,
    y_start: u16,
    x_end: u16,
    y_end: u16,
    color: u16,
) -> Seq<Transaction> {
    window_transactions(x_start, y_start, (x_end - 1) as u16, (y_end - 1) as u16)
        + fill_transactions(pixel_count(x_start, y_start, x_end, y_end), color)
}

/// The number of pixel values that the word transfers of a trace carry.
pub open spec fn words_in(trace: Seq<Signal>) -> nat
    decreases trace.len(),
{
    if trace.len() == 0 {
        0
    } else {
        words_in(trace.drop_last()) + match trace.last() {
            Signal::Words(w) => w.len(),
            _ => 0,
        }
    }
}

/// The number of bus transfers in a trace.
pub open spec fn transfers_in(trace: Seq<Signal>) -> nat
    decreases trace.len(),
{
    if trace.len() == 0 {
        0
    } else {
        transfers_in(trace.drop_last()) + if is_transfer(trace.last()) {
            1nat
        } else {
            0nat
        }
    }
}

/// Every transfer of words in the trace carries between one and
/// [`CHUNK_PIXELS`] of them, each of them `color`.
pub open spec fn chunks_bounded(trace: Seq<Signal>, color: u16) -> bool {
    forall|k: int|
        0 <= k < trace.len() ==> match #[trigger] trace[k] {
            Signal::Words(w) => 1 <= w.len() <= CHUNK_PIXELS && w == solid(w.len(), color),
            _ => true,
        }
}

/// No transfer in the trace carries words.
pub open spec fn wordless(trace: Seq<Signal>) -> bool {
    forall|k: int| 0 <= k < trace.len() ==> !(#[trigger] trace[k] is Words)
}

/// The words of two traces add up.
pub proof fn lemma_words_in_append(first: Seq<Signal>, second: Seq<Signal>)
    ensures
        words_in(first + second) == words_in(first) + words_in(second),
    decreases second.len(),
{
    if second.len() == 0 {
        assert(first + second =~= first);
    } else {
        lemma_words_in_append(first, second.drop_last());
        assert((first + second).drop_last() =~= first + second.drop_last());
    }
}

/// The transfers of two traces add up.
pub proof fn lemma_transfers_in_append(first: Seq<Signal>, second: Seq<Signal>)
    ensures
        transfers_in(first + second) == transfers_in(first) + transfers_in(second),
    decreases second.len(),
{
    if second.len() == 0 {
        assert(first + second =~= first);
    } else {
        lemma_transfers_in_append(first, second.drop_last());
        assert((first + second).drop_last() =~= first + second.drop_last());
    }
}

/// A framed transfer of words is one transfer and carries those words.
pub proof fn lemma_chunk_frame_counts(words: Seq<u16>)
    ensures
        words_in(framed(Signal::Words(words))) == words.len(),
        transfers_in(framed(Signal::Words(words))) == 1,
{
    let e = Seq::<Signal>::empty();
    let t1 = e.push(Signal::Low(Line::ChipSelect));
    let t2 = t1.push(Signal::Words(words));
    let t3 = t2.push(Signal::Micros(SETTLE_MICROS));
    let t4 = t3.push(Signal::High(Line::ChipSelect));
    assert(framed(Signal::Words(words)) =~= t4);
    assert(t4.drop_last() =~= t3);
    assert(t3.drop_last() =~= t2);
    assert(t2.drop_last() =~= t1);
    assert(t1.drop_last() =~= e);
    assert(words_in(e) == 0);
    assert(transfers_in(e) == 0);
    assert(words_in(t1) == 0);
    assert(words_in(t2) == words.len());
    assert(words_in(t3) == words.len());
    assert(transfers_in(t1) == 0);
    assert(transfers_in(t2) == 1);
    assert(transfers_in(t3) == 1);
}

/// A solid fill transfers exactly `count` pixel values, in as few chunks as
/// the chunk capacity allows; for no pixels it transfers nothing.
pub proof fn lemma_fill_stream_complete(count: nat, color: u16)
    ensures
        words_in(fill_stream(count, color)) == count,
        transfers_in(fill_stream(count, color)) == chunk_count(count),
        count == 0 ==> fill_stream(count, color) == Seq::<Signal>::empty(),
    decreases count,
{
    if count > 0 {
        let n = chunk_len(count);
        let rest = (count - n) as nat;
        lemma_fill_stream_complete(rest, color);
        lemma_chunk_frame_counts(solid(n, color));
        lemma_words_in_append(chunk_frame(n, color), fill_stream(rest, color));
        lemma_transfers_in_append(chunk_frame(n, color), fill_stream(rest, color));
    }
}

/// No transfer of a pixel stream carries more than [`CHUNK_PIXELS`] pixel
/// values, none is empty, and every value in it is the fill color.
pub proof fn lemma_fill_stream_bounded(count: nat, color: u16)
    ensures
        chunks_bounded(fill_stream(count, color), color),
    decreases count,
{
    if count > 0 {
        let n = chunk_len(count);
        let rest = (count - n) as nat;
        lemma_fill_stream_bounded(rest, color);
        let head = chunk_frame(n, color);
        let tail = fill_stream(rest, color);
        assert(solid(n, color).len() == n);
        assert forall|k: int| 0 <= k < (head + tail).len() implies match #[trigger] (head
            + tail)[k] {
            Signal::Words(w) => 1 <= w.len() <= CHUNK_PIXELS && w == solid(w.len(), color),
            _ => true,
        } by {
            if k < head.len() {
                assert((head + tail)[k] == head[k]);
            } else {
                assert((head + tail)[k] == tail[k - head.len()]);
            }
        }
    }
}

/// A wordless trace carries no pixel values.
pub proof fn lemma_wordless(trace: Seq<Signal>)
    requires
        wordless(trace),
    ensures
        words_in(trace) == 0,
    decreases trace.len(),
{
    if trace.len() > 0 {
        assert forall|k: int| 0 <= k < trace.drop_last().len() implies !(
        #[trigger] trace.drop_last()[k] is Words) by {
            assert(trace.drop_last()[k] == trace[k]);
        }
        lemma_wordless(trace.drop_last());
        assert(!(trace[trace.len() - 1] is Words));
    }
}

/// Two wordless traces one after the other are wordless.
pub proof fn lemma_wordless_append(first: Seq<Signal>, second: Seq<Signal>)
    requires
        wordless(first),
        wordless(second),
    ensures
        wordless(first + second),
{
    assert forall|k: int| 0 <= k < (first + second).len() implies !(#[trigger] (first
        + second)[k] is Words) by {
        if k < first.len() {
            assert((first + second)[k] == first[k]);
        } else {
            assert((first + second)[k] == second[k - first.len()]);
        }
    }
}

/// The window goes out in bytes alone.
pub proof fn lemma_window_wordless(x_start: u16, y_start: u16, x_end: u16, y_end: u16)
    ensures
        wordless(window_frames(x_start, y_start, x_end, y_end)),
{
    assert forall|byte: u8| wordless(#[trigger] command_frame(byte)) by {
        assert(command_frame(byte).len() == 6);
    }
    assert forall|value: u16| wordless(#[trigger] data16_frames(value)) by {
        assert(data16_frames(value).len() == 8);
    }
    let s1 = command_frame(COLUMN_ADDRESS_SET);
    let s2 = s1 + data16_frames(x_start);
    let s3 = s2 + data16_frames(x_end);
    let s4 = s3 + command_frame(ROW_ADDRESS_SET);
    let s5 = s4 + data16_frames(memory_row(y_start));
    let s6 = s5 + data16_frames(memory_row(y_end));
    lemma_wordless_append(s1, data16_frames(x_start));
    lemma_wordless_append(s2, data16_frames(x_end));
    lemma_wordless_append(s3, command_frame(ROW_ADDRESS_SET));
    lemma_wordless_append(s4, data16_frames(memory_row(y_start)));
    lemma_wordless_append(s5, data16_frames(memory_row(y_end)));
    lemma_wordless_append(s6, command_frame(MEMORY_WRITE));
}

/// A solid fill transfers exactly one pixel value for each pixel of its
/// rectangle, none of them before the window is programmed, in transfers of at
/// most [`CHUNK_PIXELS`] values that are all the fill color. An empty
/// rectangle transfers no pixel value at all.
pub proof fn lemma_fill_trace_complete(
    x_start: u16,
    y_start: u16,
    x_end: u16,
    y_end: u16,
    color: u16,
)
    ensures
        words_in(fill_trace(x_start, y_start, x_end, y_end, color)) == pixel_count(
            x_start,
            y_start,
            x_end,
            y_end,
        ),
        chunks_bounded(fill_trace(x_start, y_start, x_end, y_end, color), color),
        pixel_count(x_start, y_start, x_end, y_end) == 0 ==> fill_trace(
            x_start,
            y_start,
            x_end,
            y_end,
            color,
        ) == window_frames(x_start, y_start, (x_end - 1) as u16, (y_end - 1) as u16),
{
    let window = window_frames(x_start, y_start, (x_end - 1) as u16, (y_end - 1) as u16);
    let count = pixel_count(x_start, y_start, x_end, y_end);
    let stream = fill_stream(count, color);
    lemma_window_wordless(x_start, y_start, (x_end - 1) as u16, (y_end - 1) as u16);
    lemma_wordless(window);
    lemma_fill_stream_complete(count, color);
    lemma_fill_stream_bounded(count, color);
    lemma_words_in_append(window, stream);
    assert forall|k: int| 0 <= k < (window + stream).len() implies match #[trigger] (window
        + stream)[k] {
        Signal::Words(w) => 1 <= w.len() <= CHUNK_PIXELS && w == solid(w.len(), color),
        _ => true,
    } by {
        if k < window.len() {
            assert((window + stream)[k] == window[k]);
        } else {
            assert((window + stream)[k] == stream[k - window.len()]);
        }
    }
    if count == 0 {
        assert(window + stream =~= window);
    }
}

/// A solid fill says one data transaction for each chunk, in order: chunk `i`
/// holds `chunk_size(count, i)` copies of the color, upper byte first.
pub proof fn lemma_fill_stream(count: nat, color: u16)
    ensures
        speaks(fill_stream(count, color), fill_transactions(count, color)),
    decreases count,
{
    if count == 0 {
        lemma_speaks_nothing();
        assert(fill_transactions(count, color) =~= Seq::<Transaction>::empty());
    } else {
        let n = chunk_len(count);
        let rest = (count - n) as nat;
        let head = seq![pixels(solid(n, color))];
        lemma_fill_stream(rest, color);
        assert forall|c: Controller| at_rest(c) implies #[trigger] run(c, chunk_frame(n, color))
            == having_heard(c, head) by {
            lemma_framed(c, Signal::Words(solid(n, color)));
        }
        lemma_speaks_append(
            chunk_frame(n, color),
            head,
            fill_stream(rest, color),
            fill_transactions(rest, color),
        );
        assert(head + fill_transactions(rest, color) =~= fill_transactions(count, color));
    }
}

/// A solid fill says its window and then its chunks.
pub proof fn lemma_fill_trace(x_start: u16, y_start: u16, x_end: u16, y_end: u16, color: u16)
    ensures
        speaks(
            fill_trace(x_start, y_start, x_end, y_end, color),
            fill_heard(x_start, y_start, x_end, y_end, color),
        ),
{
    let x_last = (x_end - 1) as u16;
    let y_last = (y_end - 1) as u16;
    let count = pixel_count(x_start, y_start, x_end, y_end);
    lemma_window_frames(x_start, y_start, x_last, y_last);
    lemma_fill_stream(count, color);
    lemma_speaks_append(
        window_frames(x_start, y_start, x_last, y_last),
        window_transactions(x_start, y_start, x_last, y_last),
        fill_stream(count, color),
        fill_transactions(count, color),
    );
}

/// The trace of a whole-panel image: the window of the whole panel, then every
/// pixel value in one framed transfer.
pub open spec fn image_trace(image: Seq<u16>) -> Seq<Signal> {
    window_frames(0, 0, (WIDTH - 1) as u16, (HEIGHT - 1) as u16) + framed(Signal::Words(image))
}

/// What the controller hears of [`image_trace`].
pub open spec fn image_heard(image: Seq<u16>) -> Seq<Transaction> {
    window_transactions(0, 0, (WIDTH - 1) as u16, (HEIGHT - 1) as u16) + seq![pixels(image)]
}

/// A whole-panel image says its window and then one data transaction that
/// holds every pixel value.
pub proof fn lemma_image_trace(image: Seq<u16>)
    ensures
        speaks(image_trace(image), image_heard(image)),
{
    let x_last = (WIDTH - 1) as u16;
    let y_last = (HEIGHT - 1) as u16;
    lemma_window_frames(0, 0, x_last, y_last);
    assert forall|c: Controller| at_rest(c) implies #[trigger] run(
        c,
        framed(Signal::Words(image)),
    ) == having_heard(c, seq![pixels(image)]) by {
        lemma_framed(c, Signal::Words(image));
    }
    lemma_speaks_append(
        window_frames(0, 0, x_last, y_last),
        window_transactions(0, 0, x_last, y_last),
        framed(Signal::Words(image)),
        seq![pixels(image)],
    );
}

} // verus!
