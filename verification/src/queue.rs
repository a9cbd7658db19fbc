//! Bounded FIFO of performance snapshots awaiting display.
//!
//! The animation task pushes interpolated frames at the back; the periodic
//! display task pops one frame per tick from the front.  The capacity is
//! fixed so that the queue can live in static firmware memory.

use crate::message::PerfData;
use vstd::prelude::*;

verus! {

/// Upper bound on queued frames.
pub const FRAME_QUEUE_CAPACITY: usize = 64;

/// Bounded FIFO of `PerfData` frames, capacity `FRAME_QUEUE_CAPACITY`.
pub struct FramesDeque {
    items: Vec<PerfData>,
}

impl FramesDeque {
    /// The queued frames, front first.
    pub closed spec fn view(&self) -> Seq<PerfData> {
        self.items@
    }

    /// The queue never holds more than its capacity.
    pub closed spec fn wf(&self) -> bool {
        self.items@.len() <= FRAME_QUEUE_CAPACITY
    }

    pub fn new() -> (q: FramesDeque)
        ensures
            q@ == Seq::<PerfData>::empty(),
            q.wf(),
    {
        FramesDeque { items: Vec::new() }
    }

    pub fn len(&self) -> (n: usize)
        ensures
            n == self@.len(),
    {
        self.items.len()
    }

    pub fn is_empty(&self) -> (r: bool)
        ensures
            r == (self@.len() == 0),
    {
        self.items.len() == 0
    }

    /// Discards all queued frames.
    pub fn clear(&mut self)
        ensures
            final(self)@ == Seq::<PerfData>::empty(),
            final(self).wf(),
    {
        self.items.clear();
    }

    /// Appends a frame at the back; hands the frame back when the queue is
    /// full.
    pub fn push_back(&mut self, frame: PerfData) -> (r: Result<(), PerfData>)
        requires
            old(self).wf(),
        ensures
            final(self).wf(),
            old(self)@.len() < FRAME_QUEUE_CAPACITY ==> r == Ok::<(), PerfData>(())
                && final(self)@ == old(self)@.push(frame),
            old(self)@.len() >= FRAME_QUEUE_CAPACITY ==> r == Err::<(), PerfData>(frame)
                && final(self)@ == old(self)@,
    {
        if self.items.len() < FRAME_QUEUE_CAPACITY {
            self.items.push(frame);
            Ok(())
        } else {
            Err(frame)
        }
    }

    /// Removes and returns the front frame, if any.
    pub fn pop_front(&mut self) -> (r: Option<PerfData>)
        requires
            old(self).wf(),
        ensures
            final(self).wf(),
            old(self)@.len() == 0 ==> r == None::<PerfData> && final(self)@ == old(self)@,
            old(self)@.len() > 0 ==> r == Some(old(self)@[0])
                && final(self)@ == old(self)@.skip(1),
    {
        if self.items.len() == 0 {
            None
        } else {
            let front = self.items.remove(0);
            Some(front)
        }
    }
}

} // verus!
