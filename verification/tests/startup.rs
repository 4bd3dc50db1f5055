use st7735_driver::lcd::LCD;
use st7735_driver::wire::{Line, Op};

/// The bytes of the power-on sequence as the controller takes them: `true`
/// marks a command.
fn power_on_bytes() -> Vec<(bool, u8)> {
    let groups: [(u8, &[u8]); 14] = [
        (0xB1, &[0x05, 0x3C, 0x3C]),
        (0xB2, &[0x05, 0x3C, 0x3C]),
        (0xB3, &[0x05, 0x3C, 0x3C, 0x05, 0x3C, 0x3C]),
        (0xB4, &[0x03]),
        (0xC0, &[0x0E, 0x0E, 0x04]),
        (0xC1, &[0xC5]),
        (0xC2, &[0x0D, 0x00]),
        (0xC3, &[0x8D, 0x2A]),
        (0xC4, &[0x8D, 0xEE]),
        (0xC5, &[0x06]),
        (0x36, &[0x78]),
        (0x3A, &[0x55]),
        (
            0xE0,
            &[
                0x0B, 0x17, 0x0A, 0x0D, 0x1A, 0x19, 0x16, 0x1D, 0x21, 0x26, 0x37, 0x3C, 0x00,
                0x09, 0x05, 0x10,
            ],
        ),
        (
            0xE1,
            &[
                0x0C, 0x19, 0x09, 0x0D, 0x1B, 0x19, 0x15, 0x1D, 0x21, 0x26, 0x39, 0x3E, 0x00,
                0x09, 0x05, 0x10,
            ],
        ),
    ];
    let mut bytes = vec![(true, 0x11)];
    for (reg, params) in groups {
        bytes.push((true, reg));
        for p in params {
            bytes.push((false, *p));
        }
    }
    bytes.push((true, 0x29));
    bytes
}

/// Each transfer of a log with the level of the data/command line at the
/// moment chip select went low for it: `true` marks low, a command.
fn transfers_with_tags(ops: &[Op]) -> Vec<(bool, u8)> {
    let mut dc_low = false;
    let mut tag = false;
    let mut out = Vec::new();
    for op in ops {
        match op {
            Op::SetLow(Line::DataCommand) => dc_low = true,
            Op::SetHigh(Line::DataCommand) => dc_low = false,
            Op::SetLow(Line::ChipSelect) => tag = dc_low,
            Op::WriteBytes(b) => {
                assert_eq!(b.len(), 1);
                out.push((tag, b[0]));
            }
            Op::WriteWords(_) => panic!("no pixels in the power-on sequence"),
            _ => {}
        }
    }
    out
}

#[test]
fn new_driver_has_the_power_on_sequence_pending() {
    let mut lcd = LCD::new();
    let ops = lcd.take_pending();
    assert_eq!(transfers_with_tags(&ops), power_on_bytes());
}

#[test]
fn reset_pulse_comes_before_anything_else() {
    let mut lcd = LCD::new();
    let ops = lcd.take_pending();
    assert_eq!(
        &ops[..6],
        &[
            Op::SetLow(Line::Reset),
            Op::WaitMillis(100),
            Op::SetHigh(Line::Reset),
            Op::WaitMillis(100),
            Op::SetHigh(Line::Backlight),
            Op::WaitMillis(100),
        ][..]
    );
    let first_transfer = ops
        .iter()
        .position(|op| matches!(op, Op::WriteBytes(_) | Op::WriteWords(_)))
        .unwrap();
    assert_eq!(first_transfer, 8);
    assert!(!ops[6..].contains(&Op::SetLow(Line::Reset)));
}

#[test]
fn sleep_out_is_first_and_is_followed_by_its_wait() {
    let mut lcd = LCD::new();
    let ops = lcd.take_pending();
    assert_eq!(
        &ops[6..13],
        &[
            Op::SetLow(Line::DataCommand),
            Op::SetLow(Line::ChipSelect),
            Op::WriteBytes(vec![0x11]),
            Op::WaitMicros(1),
            Op::SetHigh(Line::ChipSelect),
            Op::SetHigh(Line::DataCommand),
            Op::WaitMillis(120),
        ][..]
    );
}

#[test]
fn display_on_is_last_and_follows_the_settling_wait() {
    let mut lcd = LCD::new();
    let ops = lcd.take_pending();
    let n = ops.len();
    assert_eq!(
        &ops[n - 7..],
        &[
            Op::WaitMillis(120),
            Op::SetLow(Line::DataCommand),
            Op::SetLow(Line::ChipSelect),
            Op::WriteBytes(vec![0x29]),
            Op::WaitMicros(1),
            Op::SetHigh(Line::ChipSelect),
            Op::SetHigh(Line::DataCommand),
        ][..]
    );
}

#[test]
fn power_on_sequence_waits_in_five_places() {
    let mut lcd = LCD::new();
    let ops = lcd.take_pending();
    let waits: Vec<u64> = ops
        .iter()
        .filter_map(|op| match op {
            Op::WaitMillis(n) => Some(*n),
            _ => None,
        })
        .collect();
    assert_eq!(waits, vec![100, 100, 100, 120, 120]);
    assert_eq!(waits.iter().sum::<u64>(), 540);
}

#[test]
fn power_on_sequence_has_sixteen_commands_and_fifty_eight_parameters() {
    let mut lcd = LCD::new();
    let ops = lcd.take_pending();
    let heard = transfers_with_tags(&ops);
    assert_eq!(heard.iter().filter(|(command, _)| *command).count(), 16);
    assert_eq!(heard.iter().filter(|(command, _)| !*command).count(), 58);
    assert_eq!(ops.len(), 6 + 2 + 16 * 6 + 58 * 4);
}

#[test]
fn running_the_sequence_again_records_it_again() {
    let mut lcd = LCD::new();
    let first = lcd.take_pending();
    lcd.init();
    assert_eq!(lcd.take_pending(), first);
}

#[test]
fn orientation_and_pixel_format_are_fixed() {
    let mut lcd = LCD::new();
    let heard = transfers_with_tags(&lcd.take_pending());
    let at = heard.iter().position(|t| *t == (true, 0x36)).unwrap();
    assert_eq!(&heard[at..at + 4], &[(true, 0x36), (false, 0x78), (true, 0x3A), (false, 0x55)]);
}
