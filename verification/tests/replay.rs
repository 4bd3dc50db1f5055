use st7735_driver::lcd::LCD;
use st7735_driver::replay::{BusTransferFailure, Replay};
use st7735_driver::wire::{Line, Op};

fn short_log() -> Vec<Op> {
    vec![
        Op::SetLow(Line::ChipSelect),
        Op::WriteBytes(vec![0x2C]),
        Op::WaitMicros(1),
        Op::SetHigh(Line::ChipSelect),
    ]
}

#[test]
fn operations_are_handed_out_in_order_and_once() {
    let mut replay = Replay::new(short_log());
    let mut seen = Vec::new();
    while let Some(op) = replay.next() {
        seen.push(format!("{:?}", op));
        replay.settle(true);
    }
    let expected: Vec<String> = short_log().iter().map(|op| format!("{:?}", op)).collect();
    assert_eq!(seen, expected);
    assert_eq!(replay.outcome(), Ok(()));
    assert!(replay.is_complete());
}

#[test]
fn same_operation_is_offered_until_it_is_settled() {
    let replay = Replay::new(short_log());
    assert_eq!(replay.next(), Some(&Op::SetLow(Line::ChipSelect)));
    assert_eq!(replay.next(), Some(&Op::SetLow(Line::ChipSelect)));
    assert!(!replay.is_complete());
    assert_eq!(replay.outcome(), Ok(()));
}

#[test]
fn failed_transfer_ends_the_replay() {
    let mut replay = Replay::new(short_log());
    replay.settle(true);
    assert_eq!(replay.next(), Some(&Op::WriteBytes(vec![0x2C])));
    replay.settle(false);
    assert_eq!(replay.next(), None);
    assert_eq!(replay.outcome(), Err(BusTransferFailure { at: 1 }));
    assert!(!replay.is_complete());
}

#[test]
fn nothing_is_tried_again_after_a_failure() {
    let mut replay = Replay::new(short_log());
    replay.settle(false);
    replay.settle(true);
    replay.settle(true);
    assert_eq!(replay.next(), None);
    assert_eq!(replay.outcome(), Err(BusTransferFailure { at: 0 }));
}

#[test]
fn failure_at_the_last_operation_is_still_a_failure() {
    let mut replay = Replay::new(short_log());
    replay.settle(true);
    replay.settle(true);
    replay.settle(true);
    replay.settle(false);
    assert_eq!(replay.outcome(), Err(BusTransferFailure { at: 3 }));
    assert!(!replay.is_complete());
}

#[test]
fn reports_past_the_end_change_nothing() {
    let mut replay = Replay::new(short_log());
    for _ in 0..4 {
        replay.settle(true);
    }
    assert!(replay.is_complete());
    replay.settle(false);
    replay.settle(true);
    assert!(replay.is_complete());
    assert_eq!(replay.outcome(), Ok(()));
    assert_eq!(replay.next(), None);
}

#[test]
fn empty_log_is_over_at_once() {
    let replay = Replay::new(Vec::new());
    assert_eq!(replay.next(), None);
    assert!(replay.is_complete());
    assert_eq!(replay.outcome(), Ok(()));
}

#[test]
fn fill_that_fails_midway_stops_inside_the_window() {
    let mut lcd = LCD::new();
    let _ = lcd.take_pending();
    lcd.fill(0, 0, 160, 80, 0xFC07);
    let mut replay = Replay::new(lcd.take_pending());
    let mut chunks = 0;
    while let Some(op) = replay.next() {
        let went_through = match op {
            Op::WriteWords(_) => {
                chunks += 1;
                chunks <= 100
            }
            _ => true,
        };
        replay.settle(went_through);
    }
    assert_eq!(chunks, 101);
    assert_eq!(replay.outcome(), Err(BusTransferFailure { at: 50 + 4 * 100 + 1 }));
}
