//! Debouncing a push button by sampling its level at a fixed pace.
//!
//! Two samples in a row tell an edge. A falling edge is a press: it is counted
//! and the indicator is driven low. A rising edge is a release: the indicator
//! is driven high. The owner of the pin does the sampling and the waiting.

use vstd::prelude::*;

verus! {

/// Milliseconds between two samples of the button.
pub const SAMPLE_MILLIS: u64 = 20;

/// The level of a binary line.
#[derive(Clone, Copy, Debug, PartialEq, Eq, Structural)]
pub enum Level {
    Low,
    High,
}

/// What two samples in a row tell.
#[derive(Clone, Copy, Debug, PartialEq, Eq, Structural)]
pub enum Edge {
    /// The level fell: the button went down.
    Press,
    /// The level rose: the button came up.
    Release,
    /// The level did not change.
    Steady,
}

/// The edge between the sample `last` and the sample `now`.
pub open spec fn edge_between(last: Level, now: Level) -> Edge {
    if now == Level::Low && last == Level::High {
        Edge::Press
    } else if now == Level::High && last == Level::Low {
        Edge::Release
    } else {
        Edge::Steady
    }
}

/// The count after one more press; it starts over from the least value when
/// the greatest is passed.
pub open spec fn count_after_press(count: isize) -> isize {
    if count == isize::MAX {
        isize::MIN
    } else {
        (count + 1) as isize
    }
}

/// The level to drive the indicator to after an edge, if any.
pub open spec fn indicator_after(edge: Edge) -> Option<Level> {
    match edge {
        Edge::Press => Some(Level::Low),
        Edge::Release => Some(Level::High),
        Edge::Steady => None,
    }
}

/// A button as its samples show it.
#[derive(Clone, Copy, Debug, PartialEq, Eq, Structural)]
pub struct Button {
    /// The latest sample.
    pub last: Level,
    /// The presses counted so far.
    pub presses: isize,
}

impl Button {
    /// A button whose first sample is `first`, with no press counted.
    pub fn new(first: Level) -> (button: Button)
        ensures
            button == (Button { last: first, presses: 0 }),
    {
        Button { last: first, presses: 0 }
    }

    /// Takes the next sample: tells the edge since the one before, counts it
    /// if it is a press, and remembers the sample.
    pub fn sample(&mut self, now: Level) -> (edge: Edge)
        ensures
            edge == edge_between(old(self).last, now),
            final(self).last == now,
            final(self).presses == if edge == Edge::Press {
                count_after_press(old(self).presses)
            } else {
                old(self).presses
            },
    {
        let mut edge = Edge::Steady;
        if now == Level::Low && self.last == Level::High {
            self.presses = self.presses.wrapping_add(1);
            edge = Edge::Press;
        }
        if now == Level::High && self.last == Level::Low {
            edge = Edge::Release;
        }
        self.last = now;
        edge
    }
}

/// The level to drive the indicator to after `edge`: low on a press, high on a
/// release, and no change otherwise.
pub fn indicator(edge: Edge) -> (level: Option<Level>)
    ensures
        level == indicator_after(edge),
{
    match edge {
        Edge::Press => Some(Level::Low),
        Edge::Release => Some(Level::High),
        Edge::Steady => None,
    }
}

} // verus!
