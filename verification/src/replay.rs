//! Performing a log on the hardware, one operation at a time.
//!
//! The owner of the hardware asks for the next operation, performs it, and
//! reports whether it went through. The first operation that fails ends the
//! replay: nothing after it is handed out, and nothing is tried again.

use vstd::prelude::*;
use crate::wire::{signals, Op, Signal};

verus! {

/// The one fault of the driver: an operation on the bus or on a line did not
/// go through. It is fatal for the replay it happened in.
#[derive(Clone, Copy, Debug, PartialEq, Eq, Structural)]
pub struct BusTransferFailure {
    /// The place in the log of the operation that failed, counted from zero.
    pub at: usize,
}

/// A log on its way to the hardware.
pub struct Replay {
    ops: Vec<Op>,
    done: usize,
    failed: bool,
}

impl Replay {
    /// The whole log, oldest signal first.
    pub closed spec fn log(&self) -> Seq<Signal> {
        signals(self.ops@)
    }

    /// The number of operations that went through.
    pub closed spec fn done(&self) -> nat {
        self.done as nat
    }

    /// Whether an operation has failed.
    pub closed spec fn failed(&self) -> bool {
        self.failed
    }

    /// No more operations went through than the log holds, and the one that
    /// failed, if any, is in the log.
    pub closed spec fn wf(&self) -> bool {
        &&& self.done <= self.ops.len()
        &&& self.failed ==> self.done < self.ops.len()
    }

    /// The signals that reached the hardware: the log up to the first
    /// operation that did not go through.
    pub open spec fn performed(&self) -> Seq<Signal> {
        self.log().take(self.done() as int)
    }

    /// Whether the replay has ended: by a failure, or at the end of the log.
    pub open spec fn over(&self) -> bool {
        self.failed() || self.done() == self.log().len()
    }

    /// A replay of `ops` of which nothing has been performed yet.
    pub fn new(ops: Vec<Op>) -> (replay: Replay)
        ensures
            replay.wf(),
            replay.log() == signals(ops@),
            replay.done() == 0,
            !replay.failed(),
    {
        Replay { ops, done: 0, failed: false }
    }

    /// The operation to perform next: the first of the log that has not been
    /// performed, or nothing once the replay is over.
    pub fn next(&self) -> (op: Option<&Op>)
        requires
            self.wf(),
        ensures
            op is None <==> self.over(),
            op matches Some(o) ==> o@ == self.log()[self.done() as int],
    {
        if self.failed || self.done >= self.ops.len() {
            None
        } else {
            Some(&self.ops[self.done])
        }
    }

    /// Takes the report on the operation that [`Replay::next`] handed out.
    /// One that went through counts as performed; one that did not ends the
    /// replay. Once the replay is over a report changes nothing.
    pub fn settle(&mut self, went_through: bool)
        requires
            old(self).wf(),
        ensures
            final(self).wf(),
            final(self).log() == old(self).log(),
            final(self).done() == if went_through && !old(self).over() {
                old(self).done() + 1
            } else {
                old(self).done()
            },
            final(self).failed() == (old(self).failed() || (!went_through && !old(self).over())),
    {
        if self.failed || self.done >= self.ops.len() {
            return ;
        }
        if went_through {
            self.done += 1;
        } else {
            self.failed = true;
        }
    }

    /// How the replay stands: the failure, with the place of the operation
    /// that failed, if there was one.
    pub fn outcome(&self) -> (outcome: Result<(), BusTransferFailure>)
        requires
            self.wf(),
        ensures
            outcome is Err <==> self.failed(),
            outcome matches Err(e) ==> e.at == self.done(),
    {
        if self.failed {
            Err(BusTransferFailure { at: self.done })
        } else {
            Ok(())
        }
    }

    /// Whether every operation of the log went through.
    pub fn is_complete(&self) -> (complete: bool)
        requires
            self.wf(),
        ensures
            complete == (!self.failed() && self.performed() == self.log()),
    {
        proof {
            if self.done == self.ops.len() {
                assert(self.log().take(self.done() as int) =~= self.log());
            } else {
                assert(self.log().take(self.done() as int).len() != self.log().len());
            }
        }
        !self.failed && self.done == self.ops.len()
    }
}

} // verus!
