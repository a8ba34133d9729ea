//! Immutable sample data, velocity layers and playback voices.
//!
//! Sample data is fixed-point PCM (`i32` per item), shared by reference
//! counting between every instrument layer and every voice that plays it.
use std::sync::Arc;
use vstd::prelude::*;

verus! {

/// Relies on `Arc::clone`: the new handle points at the same value.
#[verifier::external_body]
pub(crate) fn share<T>(a: &Arc<T>) -> (r: Arc<T>)
    ensures
        r == *a,
{
    Arc::clone(a)
}

/// Decoded audio, never mutated after construction.
pub struct Sample {
    pub data: Arc<Vec<i32>>,
    pub length: usize,
}

impl Sample {
    /// The stored items.
    pub open spec fn items(&self) -> Seq<i32> {
        self.data@
    }

    pub fn new(data: Vec<i32>, length: usize) -> (r: Sample)
        ensures
            r.items() == data@,
            r.length == length,
    {
        Sample { data: Arc::new(data), length }
    }

    /// A second handle on the same data.
    pub fn share(&self) -> (r: Sample)
        ensures
            r == *self,
    {
        Sample { data: share(&self.data), length: self.length }
    }

    /// Number of frames the sample plays for.
    pub fn len(&self) -> (r: usize)
        ensures
            r == self.length,
    {
        self.length
    }
}

/// One velocity layer of an instrument.
pub struct LevelSample {
    pub sample: Sample,
    pub level: u8,
}

impl LevelSample {
    pub fn new(sample: Sample, level: u8) -> (r: LevelSample)
        ensures
            r.sample == sample,
            r.level == level,
    {
        LevelSample { sample, level }
    }
}

/// A loaded sample together with the velocity threshold it is meant for.
pub struct SampleHandle {
    pub sample: Sample,
    pub trig: u8,
}

impl SampleHandle {
    pub fn from_sample(sample: &Sample) -> (r: SampleHandle)
        ensures
            r.sample == *sample,
            r.trig == 0,
    {
        SampleHandle { sample: sample.share(), trig: 0 }
    }

    pub fn get_trig(&self) -> (r: u8)
        ensures
            r == self.trig,
    {
        self.trig
    }

    pub fn set_trig(&mut self, val: u8)
        ensures
            final(self).trig == val,
            final(self).sample == old(self).sample,
    {
        self.trig = val;
    }
}

/// One active playback voice: a sample and a read cursor into it.
pub struct PlayingSample {
    pub sample: Sample,
    pub position: usize,
}

impl PlayingSample {
    /// The value the voice contributes `t` frames after its cursor: the
    /// stored item there, or silence past the end of the data.
    pub open spec fn value_at(&self, t: int) -> int {
        let i = self.position + t;
        if 0 <= i < self.sample.items().len() {
            self.sample.items()[i] as int
        } else {
            0
        }
    }

    pub open spec fn is_finished(&self) -> bool {
        self.position >= self.sample.length
    }

    pub fn from_sample(sample: Sample) -> (r: PlayingSample)
        ensures
            r.sample == sample,
            r.position == 0,
    {
        PlayingSample { sample, position: 0 }
    }

    pub fn finished(&self) -> (r: bool)
        ensures
            r == self.is_finished(),
    {
        self.position >= self.sample.length
    }

    /// Moves the cursor on by `steps` frames, stopping at `usize::MAX`.
    pub fn advance(&mut self, steps: usize)
        ensures
            final(self).sample == old(self).sample,
            final(self).position == if old(self).position + steps <= usize::MAX {
                (old(self).position + steps) as usize
            } else {
                usize::MAX
            },
    {
        self.position = self.position.saturating_add(steps);
    }

    /// The sample value `offset` frames after the cursor, zero past the end.
    pub fn value(&self, offset: usize) -> (r: i32)
        ensures
            r == self.value_at(offset as int),
    {
        let len = self.sample.data.len();
        if self.position < len && offset < len - self.position {
            self.sample.data[self.position + offset]
        } else {
            0
        }
    }

    pub fn iter(&self) -> (r: PlayingSampleIterator)
        ensures
            r.data@ == self.sample.items(),
            r.position == self.position,
    {
        PlayingSampleIterator { data: share(&self.sample.data), position: self.position }
    }
}

/// Reads a voice's data from its cursor to the end of the stored items.
pub struct PlayingSampleIterator {
    pub data: Arc<Vec<i32>>,
    pub position: usize,
}

impl PlayingSampleIterator {
    pub fn next(&mut self) -> (r: Option<i32>)
        ensures
            final(self).data == old(self).data,
            old(self).position < old(self).data@.len() ==> {
                &&& r == Some(old(self).data@[old(self).position as int])
                &&& final(self).position == old(self).position + 1
            },
            old(self).position >= old(self).data@.len() ==> {
                &&& r is None
                &&& final(self).position == old(self).position
            },
    {
        if self.position >= self.data.len() {
            return None;
        }
        let v = self.data[self.position];
        self.position = self.position + 1;
        Some(v)
    }
}

} // verus!
