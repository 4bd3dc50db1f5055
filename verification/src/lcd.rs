//! The display driver: command/data framing, the power-on sequence, the
//! addressing window, and the streaming of pixels in bounded chunks.

use vstd::prelude::*;
use crate::controller::{
    command, datum, decode, high_byte, lemma_bytes_of_word, low_byte, Transaction,
};
use crate::framing::{
    command_frame, data16_frames, data_frame, framed, lemma_command_frame,
    lemma_concat_assoc, lemma_data16_frames, lemma_data_frame, lemma_extend,
    lemma_silent_trace, settled, SETTLE_MICROS,
};
use crate::region::{
    chunk_frame, fill_admits, fill_heard, fill_stream, fill_trace, image_heard, image_trace,
    lemma_fill_trace, lemma_image_trace, lemma_window_frames, solid, window_admits,
    window_frames, window_transactions, CHUNK_PIXELS, COLUMN_ADDRESS_SET, HEIGHT,
    MEMORY_WRITE, PANEL_PIXELS, ROW_ADDRESS_SET, ROW_OFFSET, WIDTH,
};
use crate::startup::{
    data_frames, group_frames, group_transactions, init_heard, init_trace,
    lemma_group_frames, lemma_init_trace, lemma_table_push, pause, power_up, settings,
    table_frames, BACKLIGHT_MILLIS, DISPLAY_ON, FRAME_RATE, FRAME_RATE_BOTH, FRAME_RATE_IDLE,
    FRAME_RATE_NORMAL, FRAME_RATE_PARTIAL, GAMMA_NEGATIVE, GAMMA_NEGATIVE_TABLE,
    GAMMA_POSITIVE, GAMMA_POSITIVE_TABLE, INVERSION, INVERSION_CONTROL,
    MEMORY_ACCESS_CONTROL, ORIENTATION, PIXEL_FORMAT, POWER_1, POWER_2, POWER_3, POWER_4,
    POWER_5, POWER_CONTROL_1, POWER_CONTROL_2, POWER_CONTROL_3, POWER_CONTROL_4,
    POWER_CONTROL_5, RESET_MILLIS, SETTINGS_MILLIS, SIXTEEN_BIT, SLEEP_OUT, VCOM,
    VCOM_CONTROL, WAKE_MILLIS,
};
use crate::wire::{lemma_signals_push, signals, Line, Op, Signal};

verus! {

/// A transmit buffer of `n` pixel values, all `color`.
pub fn solid_chunk(n: usize, color: u16) -> (chunk: Vec<u16>)
    ensures
        chunk@ == solid(n as nat, color),
{
    let mut chunk: Vec<u16> = Vec::new();
    let mut i: usize = 0;
    while i < n
        invariant
            i <= n,
            chunk@ == solid(i as nat, color),
        decreases n - i,
    {
        chunk.push(color);
        i += 1;
        assert(chunk@ =~= solid(i as nat, color));
    }
    chunk
}

/// Whether [`LCD::set_address`] takes these rows.
pub fn window_fits(y_start: u16, y_end: u16) -> (fits: bool)
    ensures
        fits == window_admits(y_start, y_end),
{
    y_start <= u16::MAX - ROW_OFFSET && y_end <= u16::MAX - ROW_OFFSET
}

/// Whether [`LCD::fill`] takes this rectangle.
pub fn fill_fits(x_start: u16, y_start: u16, x_end: u16, y_end: u16) -> (fits: bool)
    ensures
        fits == fill_admits(x_start, y_start, x_end, y_end),
{
    if x_end < 1 || y_end < 1 || x_start > x_end || y_start > y_end {
        return false;
    }
    if y_start > u16::MAX - ROW_OFFSET || y_end - 1 > u16::MAX - ROW_OFFSET {
        return false;
    }
    let width: u32 = (x_end - x_start) as u32;
    let height: u32 = (y_end - y_start) as u32;
    assert(width * height <= 0xFFFF * 0xFFFF) by (nonlinear_arith)
        requires
            width <= 0xFFFF,
            height <= 0xFFFF,
    ;
    width * height <= 0xFFFF
}

/// The driver of one display.
///
/// It owns the log of everything it has asked of the hardware since it was
/// made. The part of the log that has not been handed out yet is pending; the
/// owner of the hardware takes it with [`LCD::take_pending`] and performs it,
/// in order.
pub struct LCD {
    pending: Vec<Op>,
    handed_out: Ghost<Seq<Signal>>,
}

impl View for LCD {
    type V = Seq<Signal>;

    /// Every signal since the driver was made, oldest first.
    closed spec fn view(&self) -> Seq<Signal> {
        self.handed_out@ + signals(self.pending@)
    }
}

impl LCD {
    /// The signals recorded since the log was last taken.
    pub closed spec fn pending(&self) -> Seq<Signal> {
        signals(self.pending@)
    }

    /// The transactions that the controller has heard from this driver.
    pub open spec fn heard(&self) -> Seq<Transaction> {
        decode(self@)
    }

    /// The controller is between transactions, its data/command line rests
    /// high, and every byte so far went out inside a frame.
    pub open spec fn wf(&self) -> bool {
        settled(self@)
    }

    /// This driver is `before` with `trace` recorded after it: at the end of
    /// its history and at the end of what is pending.
    pub open spec fn extends(&self, before: LCD, trace: Seq<Signal>) -> bool {
        &&& self@ == before@ + trace
        &&& self.pending() == before.pending() + trace
    }

    /// Recording `first` and then `second` is recording `first + second`.
    pub proof fn lemma_extends_twice(
        &self,
        middle: LCD,
        before: LCD,
        first: Seq<Signal>,
        second: Seq<Signal>,
    )
        requires
            middle.extends(before, first),
            self.extends(middle, second),
        ensures
            self.extends(before, first + second),
    {
        lemma_concat_assoc(before@, first, second);
        lemma_concat_assoc(before.pending(), first, second);
    }

    /// A driver for a display whose lines are handed over deselected and with
    /// the data/command line high. The power-on sequence is recorded at once:
    /// it is all that is pending, and all that the controller will have heard
    /// once it is performed.
    pub fn new() -> (lcd: LCD)
        ensures
            lcd@ == init_trace(),
            lcd.pending() == init_trace(),
            lcd.wf(),
            lcd.heard() == init_heard(),
    {
        let mut lcd = LCD { pending: Vec::new(), handed_out: Ghost(Seq::empty()) };
        assert(lcd@ =~= Seq::<Signal>::empty());
        assert(lcd.pending() =~= Seq::<Signal>::empty());
        lcd.init();
        assert(lcd@ =~= init_trace());
        assert(lcd.pending() =~= init_trace());
        assert(lcd.heard() =~= init_heard());
        lcd
    }

    /// Runs the power-on sequence: the reset pulse, the backlight, sleep-out
    /// and its wait, every setting in order, the settling wait, display-on.
    pub fn init(&mut self)
        requires
            old(self).wf(),
        ensures
            final(self).extends(*old(self), init_trace()),
            final(self).wf(),
            final(self).heard() == old(self).heard() + init_heard(),
    {
        self.power_up();
        let ghost powered = *self;
        self.write_reg(SLEEP_OUT);
        let ghost woken = *self;
        self.wait_millis(WAKE_MILLIS);
        let ghost awake = *self;
        self.configure();
        let ghost set = *self;
        self.wait_millis(SETTINGS_MILLIS);
        let ghost rested = *self;
        self.write_reg(DISPLAY_ON);
        proof {
            let t1 = power_up();
            let t2 = t1 + command_frame(SLEEP_OUT);
            let t3 = t2 + pause(WAKE_MILLIS);
            let t4 = t3 + table_frames(settings());
            let t5 = t4 + pause(SETTINGS_MILLIS);
            woken.lemma_extends_twice(powered, *old(self), t1, command_frame(SLEEP_OUT));
            awake.lemma_extends_twice(woken, *old(self), t2, pause(WAKE_MILLIS));
            set.lemma_extends_twice(awake, *old(self), t3, table_frames(settings()));
            rested.lemma_extends_twice(set, *old(self), t4, pause(SETTINGS_MILLIS));
            self.lemma_extends_twice(rested, *old(self), t5, command_frame(DISPLAY_ON));
            lemma_init_trace();
            lemma_extend(old(self)@, init_trace(), init_heard());
        }
    }

    /// Pulses reset and switches the backlight on, with the wait that each
    /// needs. The controller hears nothing of it.
    fn power_up(&mut self)
        requires
            old(self).wf(),
        ensures
            final(self).extends(*old(self), power_up()),
            final(self).wf(),
    {
        self.emit(Op::SetLow(Line::Reset));
        self.emit(Op::WaitMillis(RESET_MILLIS));
        self.emit(Op::SetHigh(Line::Reset));
        self.emit(Op::WaitMillis(RESET_MILLIS));

        self.emit(Op::SetHigh(Line::Backlight));
        self.emit(Op::WaitMillis(BACKLIGHT_MILLIS));
        proof {
            assert(self@ =~= old(self)@ + power_up());
            assert(self.pending() =~= old(self).pending() + power_up());
            lemma_silent_trace(power_up());
            lemma_extend(old(self)@, power_up(), Seq::empty());
        }
    }

    /// Waits `millis` milliseconds. The controller hears nothing of it.
    fn wait_millis(&mut self, millis: u64)
        requires
            old(self).wf(),
        ensures
            final(self).extends(*old(self), pause(millis)),
            final(self).wf(),
    {
        self.emit(Op::WaitMillis(millis));
        proof {
            lemma_silent_trace(pause(millis));
            lemma_extend(old(self)@, pause(millis), Seq::empty());
        }
    }

    /// Sends the settings of the panel, in their fixed order.
    fn configure(&mut self)
        requires
            old(self).wf(),
        ensures
            final(self).extends(*old(self), table_frames(settings())),
            final(self).wf(),
    {
        let ghost start = *self;
        let ghost mut table: Seq<(u8, Seq<u8>)> = Seq::empty();
        proof {
            assert(self@ =~= start@ + table_frames(table));
            assert(self.pending() =~= start.pending() + table_frames(table));
        }
        self.setting(FRAME_RATE_NORMAL, &FRAME_RATE, Ghost(start), Ghost(table));
        proof {
            table = table.push((FRAME_RATE_NORMAL, FRAME_RATE@));
        }
        self.setting(FRAME_RATE_IDLE, &FRAME_RATE, Ghost(start), Ghost(table));
        proof {
            table = table.push((FRAME_RATE_IDLE, FRAME_RATE@));
        }
        self.setting(FRAME_RATE_PARTIAL, &FRAME_RATE_BOTH, Ghost(start), Ghost(table));
        proof {
            table = table.push((FRAME_RATE_PARTIAL, FRAME_RATE_BOTH@));
        }
        self.setting(INVERSION_CONTROL, &INVERSION, Ghost(start), Ghost(table));
        proof {
            table = table.push((INVERSION_CONTROL, INVERSION@));
        }
        self.setting(POWER_CONTROL_1, &POWER_1, Ghost(start), Ghost(table));
        proof {
            table = table.push((POWER_CONTROL_1, POWER_1@));
        }
        self.setting(POWER_CONTROL_2, &POWER_2, Ghost(start), Ghost(table));
        proof {
            table = table.push((POWER_CONTROL_2, POWER_2@));
        }
        self.setting(POWER_CONTROL_3, &POWER_3, Ghost(start), Ghost(table));
        proof {
            table = table.push((POWER_CONTROL_3, POWER_3@));
        }
        self.setting(POWER_CONTROL_4, &POWER_4, Ghost(start), Ghost(table));
        proof {
            table = table.push((POWER_CONTROL_4, POWER_4@));
        }
        self.setting(POWER_CONTROL_5, &POWER_5, Ghost(start), Ghost(table));
        proof {
            table = table.push((POWER_CONTROL_5, POWER_5@));
        }
        self.setting(VCOM_CONTROL, &VCOM, Ghost(start), Ghost(table));
        proof {
            table = table.push((VCOM_CONTROL, VCOM@));
        }
        self.setting(MEMORY_ACCESS_CONTROL, &ORIENTATION, Ghost(start), Ghost(table));
        proof {
            table = table.push((MEMORY_ACCESS_CONTROL, ORIENTATION@));
        }
        self.setting(PIXEL_FORMAT, &SIXTEEN_BIT, Ghost(start), Ghost(table));
        proof {
            table = table.push((PIXEL_FORMAT, SIXTEEN_BIT@));
        }
        self.setting(GAMMA_POSITIVE, &GAMMA_POSITIVE_TABLE, Ghost(start), Ghost(table));
        proof {
            table = table.push((GAMMA_POSITIVE, GAMMA_POSITIVE_TABLE@));
        }
        self.setting(GAMMA_NEGATIVE, &GAMMA_NEGATIVE_TABLE, Ghost(start), Ghost(table));
        proof {
            table = table.push((GAMMA_NEGATIVE, GAMMA_NEGATIVE_TABLE@));
            assert(table =~= settings());
        }
    }

    /// Sends one setting of the panel, after the settings of `table` have gone
    /// out since `before`.
    fn setting(
        &mut self,
        reg: u8,
        params: &[u8],
        Ghost(before): Ghost<LCD>,
        Ghost(table): Ghost<Seq<(u8, Seq<u8>)>>,
    )
        requires
            old(self).wf(),
            old(self).extends(before, table_frames(table)),
        ensures
            final(self).wf(),
            final(self).extends(before, table_frames(table.push((reg, params@)))),
    {
        self.write_group(reg, params);
        proof {
            self.lemma_extends_twice(
                *old(self),
                before,
                table_frames(table),
                group_frames(reg, params@),
            );
            lemma_table_push(table, reg, params@);
        }
    }

    /// Filling depends on nothing but the arguments: whatever two drivers have
    /// recorded before, the same solid fill adds the same signals to both. So
    /// a fill made twice records the same trace twice.
    pub proof fn lemma_fill_repeats(
        first_before: LCD,
        first_after: LCD,
        second_before: LCD,
        second_after: LCD,
        x_start: u16,
        y_start: u16,
        x_end: u16,
        y_end: u16,
        color: u16,
    )
        requires
            first_after.extends(first_before, fill_trace(x_start, y_start, x_end, y_end, color)),
            second_after.extends(
                second_before,
                fill_trace(x_start, y_start, x_end, y_end, color),
            ),
        ensures
            first_after@.skip(first_before@.len() as int) == second_after@.skip(
                second_before@.len() as int,
            ),
            first_after.pending().skip(first_before.pending().len() as int)
                == second_after.pending().skip(second_before.pending().len() as int),
    {
        let trace = fill_trace(x_start, y_start, x_end, y_end, color);
        assert((first_before@ + trace).skip(first_before@.len() as int) =~= trace);
        assert((second_before@ + trace).skip(second_before@.len() as int) =~= trace);
        assert((first_before.pending() + trace).skip(first_before.pending().len() as int)
            =~= trace);
        assert((second_before.pending() + trace).skip(second_before.pending().len() as int)
            =~= trace);
    }

    /// Records one operation.
    fn emit(&mut self, op: Op)
        ensures
            final(self).extends(*old(self), seq![op@]),
    {
        proof {
            lemma_signals_push(self.pending@, op);
        }
        self.pending.push(op);
        assert(self@ =~= old(self)@ + seq![op@]);
        assert(self.pending() =~= old(self).pending() + seq![op@]);
    }

    /// Hands out the pending part of the log, oldest operation first, and
    /// leaves nothing pending. The history of the driver is unchanged.
    pub fn take_pending(&mut self) -> (ops: Vec<Op>)
        ensures
            signals(ops@) == old(self).pending(),
            final(self).pending() == Seq::<Signal>::empty(),
            final(self)@ == old(self)@,
    {
        let mut ops: Vec<Op> = Vec::new();
        std::mem::swap(&mut self.pending, &mut ops);
        self.handed_out = Ghost(self.handed_out@ + signals(ops@));
        assert(signals(self.pending@) =~= Seq::<Signal>::empty());
        assert(self@ =~= old(self)@);
        ops
    }

    /// One framed transfer: select the chip, transfer, let the bus settle,
    /// deselect. Nothing else in the driver moves chip select.
    fn transfer(&mut self, payload: Op)
        ensures
            final(self).extends(*old(self), framed(payload@)),
    {
        let ghost p = payload@;
        self.emit(Op::SetLow(Line::ChipSelect));
        self.emit(payload);
        self.emit(Op::WaitMicros(SETTLE_MICROS));
        self.emit(Op::SetHigh(Line::ChipSelect));
        assert(self@ =~= old(self)@ + framed(p));
        assert(self.pending() =~= old(self).pending() + framed(p));
    }

    /// Sends one data byte. The data/command line is not touched: it rests
    /// high between commands.
    pub fn write_data(&mut self, data: u8)
        requires
            old(self).wf(),
        ensures
            final(self).extends(*old(self), data_frame(data)),
            final(self).wf(),
            final(self).heard() == old(self).heard() + seq![datum(data)],
    {
        let mut bytes: Vec<u8> = Vec::new();
        bytes.push(data);
        assert(bytes@ =~= seq![data]);
        self.transfer(Op::WriteBytes(bytes));
        proof {
            lemma_data_frame(data);
            lemma_extend(old(self)@, data_frame(data), seq![datum(data)]);
        }
    }

    /// Sends one command byte: the data/command line goes low, the byte goes
    /// out framed, and the line goes back high.
    pub fn write_reg(&mut self, reg: u8)
        requires
            old(self).wf(),
        ensures
            final(self).extends(*old(self), command_frame(reg)),
            final(self).wf(),
            final(self).heard() == old(self).heard() + seq![command(reg)],
    {
        self.emit(Op::SetLow(Line::DataCommand));
        let mut bytes: Vec<u8> = Vec::new();
        bytes.push(reg);
        assert(bytes@ =~= seq![reg]);
        self.transfer(Op::WriteBytes(bytes));
        self.emit(Op::SetHigh(Line::DataCommand));
        assert(self@ =~= old(self)@ + command_frame(reg));
        assert(self.pending() =~= old(self).pending() + command_frame(reg));
        proof {
            lemma_command_frame(reg);
            lemma_extend(old(self)@, command_frame(reg), seq![command(reg)]);
        }
    }

    /// Sends a 16-bit parameter as two data bytes, most significant first.
    pub fn write_data_u16(&mut self, data: u16)
        requires
            old(self).wf(),
        ensures
            final(self).extends(*old(self), data16_frames(data)),
            final(self).wf(),
            final(self).heard() == old(self).heard() + seq![
                datum(high_byte(data)),
                datum(low_byte(data)),
            ],
    {
        proof {
            lemma_bytes_of_word(data);
        }
        let high: u8 = ((data >> 8) & 0xFF) as u8;
        let low: u8 = (data & 0xFF) as u8;
        self.write_data(high);
        let ghost middle = *self;
        self.write_data(low);
        proof {
            self.lemma_extends_twice(middle, *old(self), data_frame(high), data_frame(low));
            lemma_data16_frames(data);
            lemma_extend(
                old(self)@,
                data16_frames(data),
                seq![datum(high_byte(data)), datum(low_byte(data))],
            );
        }
    }

    /// Sends one setting: the command `reg`, then each byte of `params` as
    /// data, in order.
    pub fn write_group(&mut self, reg: u8, params: &[u8])
        requires
            old(self).wf(),
        ensures
            final(self).extends(*old(self), group_frames(reg, params@)),
            final(self).wf(),
            final(self).heard() == old(self).heard() + group_transactions(reg, params@),
    {
        self.write_reg(reg);
        let mut i: usize = 0;
        proof {
            assert(params@.take(0) =~= Seq::<u8>::empty());
            assert(command_frame(reg) + data_frames(params@.take(0)) =~= command_frame(reg));
        }
        while i < params.len()
            invariant
                i <= params.len(),
                self.wf(),
                self.extends(
                    *old(self),
                    command_frame(reg) + data_frames(params@.take(i as int)),
                ),
            decreases params.len() - i,
        {
            let ghost middle = *self;
            self.write_data(params[i]);
            proof {
                let done = params@.take(i as int);
                let next = params@.take(i + 1);
                assert(next.drop_last() =~= done);
                assert(next.last() == params@[i as int]);
                lemma_concat_assoc(
                    command_frame(reg),
                    data_frames(done),
                    data_frame(params@[i as int]),
                );
                self.lemma_extends_twice(
                    middle,
                    *old(self),
                    command_frame(reg) + data_frames(done),
                    data_frame(params@[i as int]),
                );
            }
            i += 1;
        }
        proof {
            assert(params@.take(params@.len() as int) =~= params@);
            lemma_group_frames(reg, params@);
            lemma_extend(old(self)@, group_frames(reg, params@), group_transactions(reg, params@));
        }
    }

    /// Programs the addressing window to the columns `x_start` to `x_end` and
    /// the visible rows `y_start` to `y_end`, both ends included, and opens the
    /// pixel stream. Columns go out as given; rows are moved down by
    /// [`ROW_OFFSET`]. The bounds are not checked against the panel, nor
    /// against each other.
    pub fn set_address(&mut self, x_start: u16, y_start: u16, x_end: u16, y_end: u16)
        requires
            old(self).wf(),
            window_admits(y_start, y_end),
        ensures
            final(self).extends(*old(self), window_frames(x_start, y_start, x_end, y_end)),
            final(self).wf(),
            final(self).heard() == old(self).heard() + window_transactions(
                x_start,
                y_start,
                x_end,
                y_end,
            ),
    {
        self.write_reg(COLUMN_ADDRESS_SET);
        self.write_data_u16(x_start);
        self.write_data_u16(x_end);
        self.write_reg(ROW_ADDRESS_SET);
        self.write_data_u16(y_start + ROW_OFFSET);
        self.write_data_u16(y_end + ROW_OFFSET);
        self.write_reg(MEMORY_WRITE);
        assert(self@ =~= old(self)@ + window_frames(x_start, y_start, x_end, y_end));
        assert(self.pending() =~= old(self).pending() + window_frames(
            x_start,
            y_start,
            x_end,
            y_end,
        ));
        proof {
            lemma_window_frames(x_start, y_start, x_end, y_end);
            lemma_extend(
                old(self)@,
                window_frames(x_start, y_start, x_end, y_end),
                window_transactions(x_start, y_start, x_end, y_end),
            );
        }
    }

    /// Fills the half-open rectangle from (`x_start`, `y_start`) to (`x_end`,
    /// `y_end`) with `color`: programs the window, then streams one pixel value
    /// for each pixel, in transfers of at most [`CHUNK_PIXELS`] values. An empty
    /// rectangle programs the window and transfers nothing.
    pub fn fill(&mut self, x_start: u16, y_start: u16, x_end: u16, y_end: u16, color: u16)
        requires
            old(self).wf(),
            fill_admits(x_start, y_start, x_end, y_end),
        ensures
            final(self).extends(*old(self), fill_trace(x_start, y_start, x_end, y_end, color)),
            final(self).wf(),
            final(self).heard() == old(self).heard() + fill_heard(
                x_start,
                y_start,
                x_end,
                y_end,
                color,
            ),
    {
        self.set_address(x_start, y_start, x_end - 1, y_end - 1);

        let count: usize = ((x_end - x_start) * (y_end - y_start)) as usize;
        let mut remain: usize = count;
        let ghost whole = fill_trace(x_start, y_start, x_end, y_end, color);
        proof {
            let window = window_frames(
                x_start,
                y_start,
                (x_end - 1) as u16,
                (y_end - 1) as u16,
            );
            lemma_concat_assoc(old(self)@, window, fill_stream(count as nat, color));
            lemma_concat_assoc(old(self).pending(), window, fill_stream(count as nat, color));
        }

        while remain > 0
            invariant
                remain <= count,
                self@ + fill_stream(remain as nat, color) == old(self)@ + whole,
                self.pending() + fill_stream(remain as nat, color) == old(self).pending()
                    + whole,
            decreases remain,
        {
            let n: usize = if remain < CHUNK_PIXELS {
                remain
            } else {
                CHUNK_PIXELS
            };
            let chunk = solid_chunk(n, color);
            proof {
                let rest = fill_stream((remain - n) as nat, color);
                lemma_concat_assoc(self@, chunk_frame(n as nat, color), rest);
                lemma_concat_assoc(self.pending(), chunk_frame(n as nat, color), rest);
            }
            self.transfer(Op::WriteWords(chunk));
            remain -= n;
        }
        proof {
            assert(self@ + fill_stream(0, color) =~= self@);
            assert(self.pending() + fill_stream(0, color) =~= self.pending());
            lemma_fill_trace(x_start, y_start, x_end, y_end, color);
            lemma_extend(old(self)@, whole, fill_heard(x_start, y_start, x_end, y_end, color));
        }
    }

    /// Shows a whole-panel image: programs the window to the whole panel and
    /// sends every pixel value of `image`, in order, in one transfer.
    pub fn fill_img(&mut self, image: &[u16; PANEL_PIXELS])
        requires
            old(self).wf(),
        ensures
            final(self).extends(*old(self), image_trace(image@)),
            final(self).wf(),
            final(self).heard() == old(self).heard() + image_heard(image@),
    {
        self.set_address(0, 0, WIDTH - 1, HEIGHT - 1);
        let ghost middle = *self;
        let mut words: Vec<u16> = Vec::new();
        let mut i: usize = 0;
        while i < PANEL_PIXELS
            invariant
                i <= PANEL_PIXELS,
                words@ == image@.take(i as int),
            decreases PANEL_PIXELS - i,
        {
            words.push(image[i]);
            i += 1;
            assert(words@ =~= image@.take(i as int));
        }
        assert(words@ =~= image@);
        self.transfer(Op::WriteWords(words));
        proof {
            self.lemma_extends_twice(
                middle,
                *old(self),
                window_frames(0, 0, (WIDTH - 1) as u16, (HEIGHT - 1) as u16),
                framed(Signal::Words(image@)),
            );
            lemma_image_trace(image@);
            lemma_extend(old(self)@, image_trace(image@), image_heard(image@));
        }
    }
}

} // verus!
