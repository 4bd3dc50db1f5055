use st7735_driver::lcd::LCD;
use st7735_driver::wire::{Line, Op};

fn ready() -> LCD {
    let mut lcd = LCD::new();
    let _ = lcd.take_pending();
    lcd
}

fn command_ops(byte: u8) -> Vec<Op> {
    vec![
        Op::SetLow(Line::DataCommand),
        Op::SetLow(Line::ChipSelect),
        Op::WriteBytes(vec![byte]),
        Op::WaitMicros(1),
        Op::SetHigh(Line::ChipSelect),
        Op::SetHigh(Line::DataCommand),
    ]
}

fn data_ops(byte: u8) -> Vec<Op> {
    vec![
        Op::SetLow(Line::ChipSelect),
        Op::WriteBytes(vec![byte]),
        Op::WaitMicros(1),
        Op::SetHigh(Line::ChipSelect),
    ]
}

/// The log of a window whose bounds on the wire are these.
fn window_on_wire(columns: (u16, u16), rows: (u16, u16)) -> Vec<Op> {
    let mut ops = command_ops(0x2A);
    for v in [columns.0, columns.1] {
        ops.extend(data_ops((v >> 8) as u8));
        ops.extend(data_ops((v & 0xFF) as u8));
    }
    ops.extend(command_ops(0x2B));
    for v in [rows.0, rows.1] {
        ops.extend(data_ops((v >> 8) as u8));
        ops.extend(data_ops((v & 0xFF) as u8));
    }
    ops.extend(command_ops(0x2C));
    ops
}

#[test]
fn rows_are_moved_down_by_twenty_four() {
    let mut lcd = ready();
    lcd.set_address(0, 0, 159, 79);
    assert_eq!(lcd.take_pending(), window_on_wire((0, 159), (24, 103)));
}

#[test]
fn columns_go_out_unchanged() {
    let mut lcd = ready();
    lcd.set_address(10, 20, 30, 40);
    assert_eq!(lcd.take_pending(), window_on_wire((10, 30), (44, 64)));
}

#[test]
fn window_of_one_pixel() {
    let mut lcd = ready();
    lcd.set_address(7, 9, 7, 9);
    assert_eq!(lcd.take_pending(), window_on_wire((7, 7), (33, 33)));
}

#[test]
fn window_bounds_use_both_bytes() {
    let mut lcd = ready();
    lcd.set_address(0x0102, 0x0300, 0x0405, 0x0600);
    assert_eq!(lcd.take_pending(), window_on_wire((0x0102, 0x0405), (0x0318, 0x0618)));
}

#[test]
fn window_at_the_last_row_that_fits() {
    let mut lcd = ready();
    lcd.set_address(0, 0, 0xFFFF, 0xFFFF - 24);
    assert_eq!(lcd.take_pending(), window_on_wire((0, 0xFFFF), (24, 0xFFFF)));
}

#[test]
fn window_is_three_commands_and_eight_data_bytes() {
    let mut lcd = ready();
    lcd.set_address(1, 2, 3, 4);
    let ops = lcd.take_pending();
    assert_eq!(ops.len(), 3 * 6 + 8 * 4);
    let bytes: Vec<u8> = ops
        .iter()
        .filter_map(|op| match op {
            Op::WriteBytes(b) => Some(b[0]),
            _ => None,
        })
        .collect();
    assert_eq!(bytes, vec![0x2A, 0, 1, 0, 3, 0x2B, 0, 26, 0, 28, 0x2C]);
}

#[test]
fn image_is_the_whole_panel_in_one_transfer() {
    let mut image = [0u16; 12800];
    for (i, px) in image.iter_mut().enumerate() {
        *px = (i as u16).wrapping_mul(5).wrapping_add(3);
    }
    let mut lcd = ready();
    lcd.fill_img(&image);
    let ops = lcd.take_pending();
    let window = window_on_wire((0, 159), (24, 103));
    assert_eq!(&ops[..window.len()], &window[..]);
    assert_eq!(
        &ops[window.len()..],
        &[
            Op::SetLow(Line::ChipSelect),
            Op::WriteWords(image.to_vec()),
            Op::WaitMicros(1),
            Op::SetHigh(Line::ChipSelect),
        ][..]
    );
}
