//! A common-anode RGB LED on three PWM channels: the brighter a color, the
//! shorter its channel's duty.

use vstd::prelude::*;

verus! {

/// The duty of a channel whose color has the brightness `level`, on a timer
/// whose full duty is `max_duty`: the share of `max_duty` that `level` leaves
/// of 255, rounded down.
pub open spec fn duty_for(level: u8, max_duty: u32) -> int {
    (255 - level) * max_duty / 255
}

/// The duties of the three channels, all of them to be enabled.
#[derive(Clone, Copy, Debug, PartialEq, Eq, Structural)]
pub struct Duties {
    pub red: u32,
    pub green: u32,
    pub blue: u32,
}

/// The LED, known by the full duty of its timer.
pub struct RgbLed {
    max_duty: u32,
}

impl RgbLed {
    /// The full duty of the timer.
    pub closed spec fn max_duty(&self) -> u32 {
        self.max_duty
    }

    /// The full duty is small enough for 255 times it to fit in 32 bits.
    pub closed spec fn wf(&self) -> bool {
        self.max_duty * 255 <= u32::MAX
    }

    /// An LED on a timer whose full duty is `max_duty`.
    pub fn new(max_duty: u32) -> (led: RgbLed)
        requires
            max_duty * 255 <= u32::MAX,
        ensures
            led.wf(),
            led.max_duty() == max_duty,
    {
        RgbLed { max_duty }
    }

    /// The duties that show the color (`r`, `g`, `b`).
    pub fn set_rgb(&mut self, r: u8, g: u8, b: u8) -> (duties: Duties)
        requires
            old(self).wf(),
        ensures
            final(self).wf(),
            final(self).max_duty() == old(self).max_duty(),
            duties.red == duty_for(r, old(self).max_duty()),
            duties.green == duty_for(g, old(self).max_duty()),
            duties.blue == duty_for(b, old(self).max_duty()),
    {
        let max_duty = self.max_duty;
        Duties {
            red: channel_duty(r, max_duty),
            green: channel_duty(g, max_duty),
            blue: channel_duty(b, max_duty),
        }
    }
}

/// The duty of one channel.
pub fn channel_duty(level: u8, max_duty: u32) -> (duty: u32)
    requires
        max_duty * 255 <= u32::MAX,
    ensures
        duty == duty_for(level, max_duty),
        duty <= max_duty,
{
    let dark: u32 = (u8::MAX - level) as u32;
    assert(dark * max_duty <= 255 * max_duty) by (nonlinear_arith)
        requires
            dark <= 255,
    ;
    dark * max_duty / (u8::MAX as u32)
}

/// Full brightness takes the duty down to nothing, no brightness leaves the
/// full duty, and a brighter color never has the longer duty.
pub proof fn lemma_duty_falls(dim: u8, bright: u8, max_duty: u32)
    requires
        dim <= bright,
    ensures
        duty_for(255, max_duty) == 0,
        duty_for(0, max_duty) == max_duty,
        0 <= duty_for(bright, max_duty) <= duty_for(dim, max_duty) <= max_duty,
{
    assert((255 - bright) * max_duty <= (255 - dim) * max_duty) by (nonlinear_arith)
        requires
            dim <= bright,
    ;
    assert((255 - dim) * max_duty <= 255 * max_duty) by (nonlinear_arith)
        requires
            0 <= dim,
    ;
    assert(0 <= (255 - bright) * max_duty) by (nonlinear_arith)
        requires
            bright <= 255,
    ;
}

} // verus!
