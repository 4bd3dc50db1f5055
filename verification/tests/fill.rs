use st7735_driver::lcd::{solid_chunk, LCD};
use st7735_driver::wire::{Line, Op};

fn started() -> LCD {
    let mut lcd = LCD::new();
    let _ = lcd.take_pending();
    lcd
}

const WINDOW_OPS: usize = 3 * 6 + 8 * 4;

/// The bytes of the byte transfers in a log, in order.
fn bytes_sent(ops: &[Op]) -> Vec<u8> {
    ops.iter()
        .filter_map(|op| match op {
            Op::WriteBytes(b) => Some(b[0]),
            _ => None,
        })
        .collect()
}

/// The word transfers in a log, in order.
fn chunks_sent(ops: &[Op]) -> Vec<Vec<u16>> {
    ops.iter()
        .filter_map(|op| match op {
            Op::WriteWords(w) => Some(w.clone()),
            _ => None,
        })
        .collect()
}

#[test]
fn full_panel_fill_is_one_window_and_four_hundred_chunks() {
    let mut lcd = started();
    lcd.fill(0, 0, 160, 80, 0xFC07);
    let ops = lcd.take_pending();
    assert_eq!(ops.len(), WINDOW_OPS + 4 * 400);
    assert_eq!(
        bytes_sent(&ops[..WINDOW_OPS]),
        vec![0x2A, 0, 0, 0, 159, 0x2B, 0, 24, 0, 103, 0x2C]
    );
    let chunks = &ops[WINDOW_OPS..];
    for i in 0..400 {
        assert_eq!(chunks[4 * i], Op::SetLow(Line::ChipSelect));
        assert_eq!(chunks[4 * i + 1], Op::WriteWords(vec![0xFC07; 32]));
        assert_eq!(chunks[4 * i + 2], Op::WaitMicros(1));
        assert_eq!(chunks[4 * i + 3], Op::SetHigh(Line::ChipSelect));
    }
    assert_eq!(chunks_sent(&ops).len(), 400);
}

#[test]
fn every_pixel_is_sent_once_whatever_the_count() {
    let cases: [(u16, u16, usize); 10] = [
        (1, 1, 1),
        (31, 1, 31),
        (32, 1, 32),
        (33, 1, 33),
        (8, 8, 64),
        (13, 5, 65),
        (160, 1, 160),
        (1, 80, 80),
        (100, 37, 3700),
        (160, 80, 12800),
    ];
    for (width, height, count) in cases {
        let mut lcd = started();
        lcd.fill(0, 0, width, height, 0x07E0);
        let chunks = chunks_sent(&lcd.take_pending());
        let total: usize = chunks.iter().map(|c| c.len()).sum();
        assert_eq!(total, count);
        assert_eq!(chunks.len(), (count + 31) / 32);
        for (i, chunk) in chunks.iter().enumerate() {
            assert!(chunk.len() >= 1 && chunk.len() <= 32);
            if i + 1 < chunks.len() {
                assert_eq!(chunk.len(), 32);
            }
            assert!(chunk.iter().all(|px| *px == 0x07E0));
        }
    }
}

#[test]
fn last_chunk_holds_what_is_left() {
    let mut lcd = started();
    lcd.fill(0, 0, 10, 7, 0xF800);
    let chunks = chunks_sent(&lcd.take_pending());
    assert_eq!(chunks, vec![vec![0xF800; 32], vec![0xF800; 32], vec![0xF800; 6]]);
}

#[test]
fn empty_rectangle_sends_the_window_and_no_pixels() {
    for (x0, y0, x1, y1) in [(5u16, 5u16, 5u16, 10u16), (5, 5, 10, 5), (3, 4, 3, 4)] {
        let mut lcd = started();
        lcd.fill(x0, y0, x1, y1, 0xFFFF);
        let ops = lcd.take_pending();
        assert_eq!(ops.len(), WINDOW_OPS);
        assert!(chunks_sent(&ops).is_empty());
    }
}

#[test]
fn fill_window_ends_one_before_each_end() {
    let mut lcd = started();
    lcd.fill(10, 20, 30, 40, 0x001F);
    let ops = lcd.take_pending();
    assert_eq!(
        bytes_sent(&ops[..WINDOW_OPS]),
        vec![0x2A, 0, 10, 0, 29, 0x2B, 0, 44, 0, 63, 0x2C]
    );
    let total: usize = chunks_sent(&ops).iter().map(|c| c.len()).sum();
    assert_eq!(total, 20 * 20);
}

#[test]
fn same_fill_twice_records_the_same_log_twice() {
    let mut lcd = started();
    lcd.fill(3, 4, 50, 60, 0xABCD);
    let first = lcd.take_pending();
    lcd.fill(3, 4, 50, 60, 0xABCD);
    let second = lcd.take_pending();
    assert_eq!(first, second);

    let mut both = started();
    both.fill(3, 4, 50, 60, 0xABCD);
    both.fill(3, 4, 50, 60, 0xABCD);
    let log = both.take_pending();
    assert_eq!(log.len(), 2 * first.len());
    assert_eq!(&log[..first.len()], &first[..]);
    assert_eq!(&log[first.len()..], &first[..]);
}

#[test]
fn fill_of_the_largest_count_that_fits() {
    let mut lcd = started();
    lcd.fill(0, 0, 255, 257, 0x1234);
    let chunks = chunks_sent(&lcd.take_pending());
    let total: usize = chunks.iter().map(|c| c.len()).sum();
    assert_eq!(total, 65535);
    assert_eq!(chunks.len(), 2048);
    assert_eq!(chunks[2047].len(), 31);
}

#[test]
fn transmit_buffer_holds_copies_of_the_color() {
    assert_eq!(solid_chunk(0, 0xFC07), Vec::<u16>::new());
    assert_eq!(solid_chunk(1, 0xFC07), vec![0xFC07]);
    assert_eq!(solid_chunk(32, 0x0001), vec![0x0001; 32]);
}
