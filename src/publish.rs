//! Double-buffered publication of the topology.
//!
//! Two snapshots are kept. The audio thread reads the live one; the control
//! thread changes the other (the shadow) and makes it live (`stage`),
//! publishes it to the reader and waits until no read of the old live
//! snapshot can still be in flight, and then makes the same change to the
//! snapshot that has become the shadow (`settle`). Between changes both
//! snapshots hold the same content.
use vstd::prelude::*;

use crate::processor::{apply_all, Mutation, SharedState, StateView};

verus! {

/// Names one of the two snapshots.
#[derive(PartialEq, Eq, Structural, Clone, Copy, Debug)]
pub enum SharedIdx {
    Shared1,
    Shared2,
}

/// The two snapshots and which of them is live.
pub struct DoubleBuffer {
    pub shared1: Box<SharedState>,
    pub shared2: Box<SharedState>,
    /// The live snapshot; the other one is the shadow.
    pub shidx: SharedIdx,
    /// Whether an audio thread reads the live snapshot.
    pub attached: bool,
}

impl DoubleBuffer {
    /// Both snapshots agree.
    pub open spec fn wf(&self) -> bool {
        self.shared1@ == self.shared2@
    }

    /// The content both snapshots hold.
    pub open spec fn state(&self) -> StateView {
        self.shared1@
    }

    /// Two equal snapshots, the first live, no audio thread attached.
    pub fn new(first: SharedState, second: SharedState) -> (r: DoubleBuffer)
        requires
            first@ == second@,
        ensures
            r.wf(),
            r.state() == first@,
            r.shidx == SharedIdx::Shared1,
            !r.attached,
    {
        DoubleBuffer {
            shared1: Box::new(first),
            shared2: Box::new(second),
            shidx: SharedIdx::Shared1,
            attached: false,
        }
    }

    /// From now on changes go through the shadow and wait for the reader.
    pub fn attach(&mut self)
        ensures
            final(self).attached,
            final(self).shidx == old(self).shidx,
            final(self).shared1 == old(self).shared1,
            final(self).shared2 == old(self).shared2,
    {
        self.attached = true;
    }

    /// The live snapshot.
    pub fn live(&self) -> (r: &SharedState)
        ensures
            *r == if self.shidx == SharedIdx::Shared1 {
                *self.shared1
            } else {
                *self.shared2
            },
            r@ == self.live_view(),
    {
        match self.shidx {
            SharedIdx::Shared1 => &self.shared1,
            SharedIdx::Shared2 => &self.shared2,
        }
    }

    /// The snapshot the audio thread reads.
    pub open spec fn live_view(&self) -> StateView {
        if self.shidx == SharedIdx::Shared1 {
            self.shared1@
        } else {
            self.shared2@
        }
    }

    /// The snapshot the control thread may change.
    pub open spec fn shadow_view(&self) -> StateView {
        if self.shidx == SharedIdx::Shared1 {
            self.shared2@
        } else {
            self.shared1@
        }
    }

    /// First half of a change while an audio thread reads: applies `ms` to
    /// the shadow and makes it the live snapshot. The snapshot the audio
    /// thread was reading is left as it was. Before `settle`, the caller
    /// must publish the new live snapshot to the reader and wait until no
    /// read of the other one is in flight.
    pub fn stage(&mut self, ms: &Vec<Mutation>)
        requires
            old(self).wf(),
            old(self).attached,
        ensures
            final(self).attached,
            final(self).shidx != old(self).shidx,
            final(self).live_view() == apply_all(old(self).state(), ms@),
            final(self).shadow_view() == old(self).live_view(),
            old(self).shidx == SharedIdx::Shared1 ==> final(self).shared1 == old(self).shared1,
            old(self).shidx == SharedIdx::Shared2 ==> final(self).shared2 == old(self).shared2,
    {
        match self.shidx {
            SharedIdx::Shared1 => {
                self.shared2.apply_all(ms);
                self.shidx = SharedIdx::Shared2;
            },
            SharedIdx::Shared2 => {
                self.shared1.apply_all(ms);
                self.shidx = SharedIdx::Shared1;
            },
        }
    }

    /// Second half of a change, once no read of the shadow can be in
    /// flight: applies `ms` to the shadow, which then agrees with the live
    /// snapshot. The live snapshot and which one is live stay as they are.
    pub fn settle(&mut self, ms: &Vec<Mutation>)
        requires
            old(self).live_view() == apply_all(old(self).shadow_view(), ms@),
        ensures
            final(self).wf(),
            final(self).state() == old(self).live_view(),
            final(self).live_view() == old(self).live_view(),
            final(self).shidx == old(self).shidx,
            final(self).attached == old(self).attached,
            old(self).shidx == SharedIdx::Shared1 ==> final(self).shared1 == old(self).shared1,
            old(self).shidx == SharedIdx::Shared2 ==> final(self).shared2 == old(self).shared2,
    {
        match self.shidx {
            SharedIdx::Shared1 => self.shared2.apply_all(ms),
            SharedIdx::Shared2 => self.shared1.apply_all(ms),
        }
    }

    /// A change with no audio thread attached: both snapshots directly,
    /// nothing to publish and nothing to wait for.
    pub fn apply_detached(&mut self, ms: &Vec<Mutation>)
        requires
            old(self).wf(),
            !old(self).attached,
        ensures
            final(self).wf(),
            final(self).state() == apply_all(old(self).state(), ms@),
            final(self).shidx == old(self).shidx,
            !final(self).attached,
    {
        self.shared1.apply_all(ms);
        self.shared2.apply_all(ms);
    }
}

/// Watches the reader's generation counter after a publication. The reader
/// adds one when it starts reading the live snapshot and one when it is
/// done, so the counter is odd exactly while a read is in flight. The watch
/// settles when the first observation is even, or later when an even
/// observation repeats the one before it.
pub struct QuiescenceWatch {
    pub last: u64,
    pub settled: bool,
}

impl QuiescenceWatch {
    /// Settled only after an even observation.
    pub open spec fn wf(&self) -> bool {
        self.settled ==> self.last % 2 == 0
    }

    pub fn start(generation: u64) -> (r: QuiescenceWatch)
        ensures
            r.wf(),
            r.last == generation,
            r.settled == (generation % 2 == 0),
    {
        QuiescenceWatch { last: generation, settled: generation % 2 == 0 }
    }

    /// Records a new observation of the counter; a settled watch stays as it
    /// is.
    pub fn observe(&mut self, generation: u64)
        requires
            old(self).wf(),
        ensures
            final(self).wf(),
            old(self).settled ==> *final(self) == *old(self),
            !old(self).settled ==> {
                &&& final(self).last == generation
                &&& final(self).settled == (generation % 2 == 0 && generation == old(self).last)
            },
    {
        if !self.settled {
            self.settled = generation % 2 == 0 && generation == self.last;
            self.last = generation;
        }
    }

    pub fn is_settled(&self) -> (r: bool)
        ensures
            r == self.settled,
    {
        self.settled
    }
}

} // verus!
