use st7735_driver::pwm::{channel_duty, Duties, RgbLed};

#[test]
fn no_brightness_is_full_duty() {
    let mut led = RgbLed::new(7200);
    assert_eq!(led.set_rgb(0, 0, 0), Duties { red: 7200, green: 7200, blue: 7200 });
}

#[test]
fn full_brightness_is_no_duty() {
    let mut led = RgbLed::new(7200);
    assert_eq!(led.set_rgb(255, 255, 255), Duties { red: 0, green: 0, blue: 0 });
}

#[test]
fn duty_is_rounded_down() {
    let mut led = RgbLed::new(7200);
    assert_eq!(led.set_rgb(128, 1, 254), Duties { red: 3585, green: 7171, blue: 28 });
}

#[test]
fn each_channel_has_its_own_color() {
    let mut led = RgbLed::new(255);
    assert_eq!(led.set_rgb(10, 20, 30), Duties { red: 245, green: 235, blue: 225 });
}

#[test]
fn largest_full_duty_that_fits() {
    let max = u32::MAX / 255;
    assert_eq!(channel_duty(0, max), max);
    assert_eq!(channel_duty(255, max), 0);
    assert_eq!(channel_duty(1, max), ((254u64 * max as u64) / 255) as u32);
}

#[test]
fn timer_that_cannot_count_gives_no_duty() {
    let mut led = RgbLed::new(0);
    assert_eq!(led.set_rgb(0, 128, 255), Duties { red: 0, green: 0, blue: 0 });
}
