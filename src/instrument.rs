//! Instruments: ordered velocity-layer tables.
use vstd::prelude::*;

use crate::samples::{LevelSample, Sample, SampleHandle};

verus! {

/// Index of the layer a trigger at velocity `v` plays: the last layer whose
/// threshold is at most `v`, or the first layer when none is.
pub open spec fn chosen_layer(ls: Seq<LevelSample>, v: u8) -> int
    decreases ls.len(),
{
    if ls.len() <= 1 {
        0
    } else if ls.last().level <= v {
        ls.len() - 1
    } else {
        chosen_layer(ls.drop_last(), v)
    }
}

/// Where a layer with threshold `lvl` goes: after every layer up to the
/// last one whose threshold is at most `lvl`.
pub open spec fn layer_slot(ls: Seq<LevelSample>, lvl: u8) -> int
    decreases ls.len(),
{
    if ls.len() == 0 {
        0
    } else if ls.last().level <= lvl {
        ls.len() as int
    } else {
        layer_slot(ls.drop_last(), lvl)
    }
}

/// Layers sorted ascending by threshold.
pub open spec fn sorted_layers(ls: Seq<LevelSample>) -> bool {
    forall|i: int, j: int| 0 <= i <= j < ls.len() ==> ls[i].level <= ls[j].level
}

proof fn lemma_layer_slot_bounds(ls: Seq<LevelSample>, lvl: u8)
    ensures
        0 <= layer_slot(ls, lvl) <= ls.len(),
        forall|j: int| layer_slot(ls, lvl) <= j < ls.len() ==> ls[j].level > lvl,
        layer_slot(ls, lvl) > 0 ==> ls[layer_slot(ls, lvl) - 1].level <= lvl,
    decreases ls.len(),
{
    if ls.len() > 0 && ls.last().level > lvl {
        lemma_layer_slot_bounds(ls.drop_last(), lvl);
        assert forall|j: int| layer_slot(ls, lvl) <= j < ls.len() implies ls[j].level > lvl by {
            if j < ls.len() - 1 {
                assert(ls[j] == ls.drop_last()[j]);
            }
        }
    }
}

proof fn lemma_chosen_layer_bounds(ls: Seq<LevelSample>, v: u8)
    ensures
        ls.len() > 0 ==> 0 <= chosen_layer(ls, v) < ls.len(),
    decreases ls.len(),
{
    if ls.len() > 1 && ls.last().level > v {
        lemma_chosen_layer_bounds(ls.drop_last(), v);
    }
}

/// Names an instrument by its id.
#[derive(PartialEq, Eq, Structural, Debug)]
pub struct InstrumentRef {
    pub tcid: usize,
}

/// A playable voice source: velocity layers kept sorted by threshold.
pub struct Instrument {
    pub sample_levels: Vec<LevelSample>,
}

impl Instrument {
    pub open spec fn layers(&self) -> Seq<LevelSample> {
        self.sample_levels@
    }

    pub open spec fn wf(&self) -> bool {
        sorted_layers(self.layers())
    }

    /// The sample a trigger at velocity `level` plays.
    pub fn sample_for_level(&self, level: u8) -> (r: Sample)
        requires
            self.layers().len() > 0,
        ensures
            r == self.layers()[chosen_layer(self.layers(), level)].sample,
    {
        proof {
            lemma_chosen_layer_bounds(self.layers(), level);
        }
        let mut i: usize = self.sample_levels.len() - 1;
        assert(self.layers().subrange(0, i + 1) =~= self.layers());
        while i > 0 && self.sample_levels[i].level > level
            invariant
                0 <= i < self.layers().len(),
                chosen_layer(self.layers(), level) == chosen_layer(
                    self.layers().subrange(0, i + 1),
                    level,
                ),
            decreases i,
        {
            proof {
                let s = self.layers().subrange(0, i + 1);
                assert(s.drop_last() =~= self.layers().subrange(0, i as int));
            }
            i = i - 1;
        }
        proof {
            let s = self.layers().subrange(0, i + 1);
            if i > 0 {
                assert(s.last() == self.layers()[i as int]);
            }
        }
        self.sample_levels[i].sample.share()
    }

    /// A copy holding the same layers; the sample data is shared.
    pub fn duplicate(&self) -> (r: Instrument)
        ensures
            r.layers() == self.layers(),
    {
        let mut out: Vec<LevelSample> = Vec::with_capacity(self.sample_levels.len());
        let mut i: usize = 0;
        while i < self.sample_levels.len()
            invariant
                i <= self.layers().len(),
                out@ == self.layers().subrange(0, i as int),
            decreases self.sample_levels.len() - i,
        {
            let ls = &self.sample_levels[i];
            out.push(LevelSample::new(ls.sample.share(), ls.level));
            assert(out@ =~= self.layers().subrange(0, i + 1));
            i = i + 1;
        }
        assert(out@ =~= self.layers());
        Instrument { sample_levels: out }
    }

    pub fn create(_name: &str) -> (r: Instrument)
        ensures
            r.layers().len() == 0,
            r.wf(),
    {
        Instrument { sample_levels: Vec::new() }
    }

    /// Adds a layer for the handle's sample at the handle's threshold,
    /// keeping the layers sorted; layers with an equal threshold stay first.
    pub fn add_sample(&mut self, sample: &mut SampleHandle)
        requires
            old(self).wf(),
        ensures
            final(self).wf(),
            *final(sample) == *old(sample),
            final(self).layers() == old(self).layers().insert(
                layer_slot(old(self).layers(), old(sample).trig),
                LevelSample { sample: old(sample).sample, level: old(sample).trig },
            ),
    {
        let trig = sample.trig;
        let layer = LevelSample::new(sample.sample.share(), trig);
        let mut i: usize = self.sample_levels.len();
        assert(self.layers().subrange(0, i as int) =~= self.layers());
        while i > 0 && self.sample_levels[i - 1].level > trig
            invariant
                i <= self.layers().len(),
                self.layers() == old(self).layers(),
                layer_slot(self.layers(), trig) == layer_slot(
                    self.layers().subrange(0, i as int),
                    trig,
                ),
            decreases i,
        {
            proof {
                let s = self.layers().subrange(0, i as int);
                assert(s.drop_last() =~= self.layers().subrange(0, i - 1));
            }
            i = i - 1;
        }
        proof {
            let s = self.layers().subrange(0, i as int);
            lemma_layer_slot_bounds(self.layers(), trig);
            if i > 0 {
                assert(s.last() == self.layers()[i - 1]);
            } else {
                assert(s.len() == 0);
            }
        }
        self.sample_levels.insert(i, layer);
        proof {
            let old_ls = old(self).layers();
            let ls = self.layers();
            lemma_layer_slot_bounds(old_ls, trig);
            assert forall|a: int, b: int| 0 <= a <= b < ls.len() implies ls[a].level
                <= ls[b].level by {
                if a < i && b > i {
                    assert(old_ls[a].level <= old_ls[b - 1].level);
                } else if a < i && b == i {
                    if i > 0 {
                        assert(old_ls[a].level <= old_ls[i - 1].level);
                    }
                } else if a == i && b > i {
                } else if a > i {
                    assert(old_ls[a - 1].level <= old_ls[b - 1].level);
                }
            }
        }
    }
}

} // verus!
