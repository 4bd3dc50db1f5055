//! The power-on sequence: a reset pulse, the backlight, wake-up, the panel's
//! settings in their fixed order, and display-on.

use vstd::prelude::*;
use crate::controller::{command, decode, Transaction};
use crate::controller::datum;
use crate::framing::{
    command_frame, data_frame, is_transfer, lemma_command_frame, lemma_data_frame,
    lemma_extend, lemma_silent_trace, lemma_speaks_append, lemma_speaks_nothing, settled,
    speaks,
};
use crate::wire::{Line, Signal};

verus! {

/// Opcode: leave sleep mode.
pub const SLEEP_OUT: u8 = 0x11;

/// Opcode: switch the display on.
pub const DISPLAY_ON: u8 = 0x29;

/// Opcode: frame rate in normal mode, full colors.
pub const FRAME_RATE_NORMAL: u8 = 0xB1;

/// Opcode: frame rate in idle mode, eight colors.
pub const FRAME_RATE_IDLE: u8 = 0xB2;

/// Opcode: frame rate in partial mode, full colors.
pub const FRAME_RATE_PARTIAL: u8 = 0xB3;

/// Opcode: display inversion control.
pub const INVERSION_CONTROL: u8 = 0xB4;

/// Opcode: power control 1.
pub const POWER_CONTROL_1: u8 = 0xC0;

/// Opcode: power control 2.
pub const POWER_CONTROL_2: u8 = 0xC1;

/// Opcode: power control 3, normal mode.
pub const POWER_CONTROL_3: u8 = 0xC2;

/// Opcode: power control 4, idle mode.
pub const POWER_CONTROL_4: u8 = 0xC3;

/// Opcode: power control 5, partial mode.
pub const POWER_CONTROL_5: u8 = 0xC4;

/// Opcode: VCOM control 1.
pub const VCOM_CONTROL: u8 = 0xC5;

/// Opcode: memory data access control (mirroring and color order).
pub const MEMORY_ACCESS_CONTROL: u8 = 0x36;

/// Opcode: interface pixel format.
pub const PIXEL_FORMAT: u8 = 0x3A;

/// Opcode: gamma correction, positive polarity.
pub const GAMMA_POSITIVE: u8 = 0xE0;

/// Opcode: gamma correction, negative polarity.
pub const GAMMA_NEGATIVE: u8 = 0xE1;

/// Frame rate parameters for normal and for idle mode.
pub const FRAME_RATE: [u8; 3] = [0x05, 0x3C, 0x3C];

/// Frame rate parameters for partial mode: line and dot inversion.
pub const FRAME_RATE_BOTH: [u8; 6] = [0x05, 0x3C, 0x3C, 0x05, 0x3C, 0x3C];

/// Dot inversion.
pub const INVERSION: [u8; 1] = [0x03];

/// Parameters of power control 1.
pub const POWER_1: [u8; 3] = [0x0E, 0x0E, 0x04];

/// Parameter of power control 2.
pub const POWER_2: [u8; 1] = [0xC5];

/// Parameters of power control 3.
pub const POWER_3: [u8; 2] = [0x0D, 0x00];

/// Parameters of power control 4.
pub const POWER_4: [u8; 2] = [0x8D, 0x2A];

/// Parameters of power control 5.
pub const POWER_5: [u8; 2] = [0x8D, 0xEE];

/// VCOM voltage.
pub const VCOM: [u8; 1] = [0x06];

/// Orientation of this panel: mirroring and color order.
pub const ORIENTATION: [u8; 1] = [0x78];

/// Sixteen bits for each pixel.
pub const SIXTEEN_BIT: [u8; 1] = [0x55];

/// Gamma table of this panel, positive polarity.
pub const GAMMA_POSITIVE_TABLE: [u8; 16] = [
    0x0B, 0x17, 0x0A, 0x0D, 0x1A, 0x19, 0x16, 0x1D, 0x21, 0x26, 0x37, 0x3C, 0x00, 0x09, 0x05, 0x10,
];

/// Gamma table of this panel, negative polarity.
pub const GAMMA_NEGATIVE_TABLE: [u8; 16] = [
    0x0C, 0x19, 0x09, 0x0D, 0x1B, 0x19, 0x15, 0x1D, 0x21, 0x26, 0x39, 0x3E, 0x00, 0x09, 0x05, 0x10,
];

/// Milliseconds that reset is held low, and again held high, before the first
/// command.
pub const RESET_MILLIS: u64 = 100;

/// Milliseconds given to the backlight to come up.
pub const BACKLIGHT_MILLIS: u64 = 100;

/// Milliseconds that the controller needs after leaving sleep mode.
pub const WAKE_MILLIS: u64 = 120;

/// Milliseconds given to power and gamma settings before the display is
/// switched on.
pub const SETTINGS_MILLIS: u64 = 120;

/// The trace of a run of parameter bytes: one data frame for each, in order.
pub open spec fn data_frames(params: Seq<u8>) -> Seq<Signal>
    decreases params.len(),
{
    if params.len() == 0 {
        Seq::empty()
    } else {
        data_frames(params.drop_last()) + data_frame(params.last())
    }
}

/// What the controller hears of [`data_frames`]: each byte as a data
/// transaction of its own.
pub open spec fn data_transactions(params: Seq<u8>) -> Seq<Transaction> {
    Seq::new(params.len(), |i: int| datum(params[i]))
}

/// The trace of one setting: a command, then its parameter bytes.
pub open spec fn group_frames(reg: u8, params: Seq<u8>) -> Seq<Signal> {
    command_frame(reg) + data_frames(params)
}

/// What the controller hears of [`group_frames`].
pub open spec fn group_transactions(reg: u8, params: Seq<u8>) -> Seq<Transaction> {
    seq![command(reg)] + data_transactions(params)
}

/// The trace of a table of settings, in the table's order.
pub open spec fn table_frames(table: Seq<(u8, Seq<u8>)>) -> Seq<Signal>
    decreases table.len(),
{
    if table.len() == 0 {
        Seq::empty()
    } else {
        table_frames(table.drop_last()) + group_frames(table.last().0, table.last().1)
    }
}

/// What the controller hears of [`table_frames`].
pub open spec fn table_transactions(table: Seq<(u8, Seq<u8>)>) -> Seq<Transaction>
    decreases table.len(),
{
    if table.len() == 0 {
        Seq::empty()
    } else {
        table_transactions(table.drop_last()) + group_transactions(
            table.last().0,
            table.last().1,
        )
    }
}

/// A run of parameter bytes says each byte as data, in order.
pub proof fn lemma_data_frames(params: Seq<u8>)
    ensures
        speaks(data_frames(params), data_transactions(params)),
    decreases params.len(),
{
    if params.len() == 0 {
        lemma_speaks_nothing();
        assert(data_transactions(params) =~= Seq::<Transaction>::empty());
    } else {
        lemma_data_frames(params.drop_last());
        lemma_data_frame(params.last());
        lemma_speaks_append(
            data_frames(params.drop_last()),
            data_transactions(params.drop_last()),
            data_frame(params.last()),
            seq![datum(params.last())],
        );
        assert(data_transactions(params.drop_last()) + seq![datum(params.last())]
            =~= data_transactions(params));
    }
}

/// A setting says its command and then its parameters as data.
pub proof fn lemma_group_frames(reg: u8, params: Seq<u8>)
    ensures
        speaks(group_frames(reg, params), group_transactions(reg, params)),
{
    lemma_command_frame(reg);
    lemma_data_frames(params);
    lemma_speaks_append(
        command_frame(reg),
        seq![command(reg)],
        data_frames(params),
        data_transactions(params),
    );
}

/// A table of settings says its settings one after the other.
pub proof fn lemma_table_frames(table: Seq<(u8, Seq<u8>)>)
    ensures
        speaks(table_frames(table), table_transactions(table)),
    decreases table.len(),
{
    if table.len() == 0 {
        lemma_speaks_nothing();
    } else {
        lemma_table_frames(table.drop_last());
        lemma_group_frames(table.last().0, table.last().1);
        lemma_speaks_append(
            table_frames(table.drop_last()),
            table_transactions(table.drop_last()),
            group_frames(table.last().0, table.last().1),
            group_transactions(table.last().0, table.last().1),
        );
    }
}

/// One more setting at the end of a table adds its trace at the end.
pub proof fn lemma_table_push(table: Seq<(u8, Seq<u8>)>, reg: u8, params: Seq<u8>)
    ensures
        table_frames(table.push((reg, params))) == table_frames(table) + group_frames(
            reg,
            params,
        ),
        table_transactions(table.push((reg, params))) == table_transactions(table)
            + group_transactions(reg, params),
{
    assert(table.push((reg, params)).drop_last() =~= table);
}

/// The trace of a wait of `millis` milliseconds.
pub open spec fn pause(millis: u64) -> Seq<Signal> {
    seq![Signal::Millis(millis)]
}

/// The reset pulse: low, hold, high, hold.
pub open spec fn reset_pulse() -> Seq<Signal> {
    seq![
        Signal::Low(Line::Reset),
        Signal::Millis(RESET_MILLIS),
        Signal::High(Line::Reset),
        Signal::Millis(RESET_MILLIS),
    ]
}

/// The backlight goes on and is given time to come up.
pub open spec fn backlight_on() -> Seq<Signal> {
    seq![Signal::High(Line::Backlight), Signal::Millis(BACKLIGHT_MILLIS)]
}

/// The settings of this panel, in the order in which they are sent.
pub open spec fn settings() -> Seq<(u8, Seq<u8>)> {
    seq![
        (FRAME_RATE_NORMAL, FRAME_RATE@),
        (FRAME_RATE_IDLE, FRAME_RATE@),
        (FRAME_RATE_PARTIAL, FRAME_RATE_BOTH@),
        (INVERSION_CONTROL, INVERSION@),
        (POWER_CONTROL_1, POWER_1@),
        (POWER_CONTROL_2, POWER_2@),
        (POWER_CONTROL_3, POWER_3@),
        (POWER_CONTROL_4, POWER_4@),
        (POWER_CONTROL_5, POWER_5@),
        (VCOM_CONTROL, VCOM@),
        (MEMORY_ACCESS_CONTROL, ORIENTATION@),
        (PIXEL_FORMAT, SIXTEEN_BIT@),
        (GAMMA_POSITIVE, GAMMA_POSITIVE_TABLE@),
        (GAMMA_NEGATIVE, GAMMA_NEGATIVE_TABLE@),
    ]
}

/// What goes out before the first command: the reset pulse and the backlight.
pub open spec fn power_up() -> Seq<Signal> {
    reset_pulse() + backlight_on()
}

/// The whole power-on sequence.
pub open spec fn init_trace() -> Seq<Signal> {
    power_up() + command_frame(SLEEP_OUT) + pause(WAKE_MILLIS) + table_frames(settings())
        + pause(SETTINGS_MILLIS) + command_frame(DISPLAY_ON)
}

/// What the controller hears of the power-on sequence: sleep-out, every
/// setting with its parameters, display-on.
pub open spec fn init_heard() -> Seq<Transaction> {
    seq![command(SLEEP_OUT)] + table_transactions(settings()) + seq![command(DISPLAY_ON)]
}

/// The power-on sequence says sleep-out, the settings in their order, and
/// display-on, and nothing else.
pub proof fn lemma_init_trace()
    ensures
        speaks(init_trace(), init_heard()),
{
    let none = Seq::<Transaction>::empty();
    let wake = seq![command(SLEEP_OUT)];
    let table = table_transactions(settings());
    let on = seq![command(DISPLAY_ON)];
    lemma_silent_trace(power_up());
    lemma_command_frame(SLEEP_OUT);
    lemma_silent_trace(pause(WAKE_MILLIS));
    lemma_table_frames(settings());
    lemma_silent_trace(pause(SETTINGS_MILLIS));
    lemma_command_frame(DISPLAY_ON);
    let s1 = power_up() + command_frame(SLEEP_OUT);
    let s2 = s1 + pause(WAKE_MILLIS);
    let s3 = s2 + table_frames(settings());
    let s4 = s3 + pause(SETTINGS_MILLIS);
    lemma_speaks_append(power_up(), none, command_frame(SLEEP_OUT), wake);
    assert(none + wake =~= wake);
    lemma_speaks_append(s1, wake, pause(WAKE_MILLIS), none);
    assert(wake + none =~= wake);
    lemma_speaks_append(s2, wake, table_frames(settings()), table);
    lemma_speaks_append(s3, wake + table, pause(SETTINGS_MILLIS), none);
    assert(wake + table + none =~= wake + table);
    lemma_speaks_append(s4, wake + table, command_frame(DISPLAY_ON), on);
}

/// The order of the power-on sequence. Reset goes low, is held, goes high and
/// is held again before anything else happens, and the first transfer on the
/// bus comes after that: it is the sleep-out opcode. To the controller,
/// sleep-out is the first transaction and display-on the last, and both are
/// commands.
pub proof fn lemma_init_order()
    ensures
        init_trace().len() > 8,
        init_trace()[0] == Signal::Low(Line::Reset),
        init_trace()[1] == Signal::Millis(RESET_MILLIS),
        init_trace()[2] == Signal::High(Line::Reset),
        init_trace()[3] == Signal::Millis(RESET_MILLIS),
        forall|k: int| 0 <= k < 8 ==> !is_transfer(#[trigger] init_trace()[k]),
        init_trace()[8] == Signal::Bytes(seq![SLEEP_OUT]),
        decode(init_trace()) == init_heard(),
        settled(init_trace()),
        init_heard().first() == command(SLEEP_OUT),
        init_heard().last() == command(DISPLAY_ON),
{
    let head = power_up() + command_frame(SLEEP_OUT);
    assert(head.len() == 12);
    assert(head[8] == Signal::Bytes(seq![SLEEP_OUT]));
    assert forall|k: int| 0 <= k < 12 implies #[trigger] init_trace()[k] == head[k] by {}
    lemma_init_trace();
    lemma_extend(Seq::empty(), init_trace(), init_heard());
    assert(Seq::<Signal>::empty() + init_trace() =~= init_trace());
    assert(decode(Seq::<Signal>::empty()) + init_heard() =~= init_heard());
}

} // verus!
