//! The control plane: topology changes, routed through the double buffer,
//! and requests to the audio thread.
use std::collections::HashMap;
use std::sync::Arc;
use vstd::prelude::*;

use crate::fader::{Fader, FaderRef, UNITY};
use crate::instrument::{layer_slot, Instrument, InstrumentRef};
use crate::processor::{
    apply_all, apply_mutation, has_source, lemma_batch_keeps_unique, lemma_route_dedup,
    lemma_without_excludes, occurrences, send_message, sources_of, unique_sources,
    FaderSourceType, Mutation, Processor, ProcessorMessage, SharedState, StateView,
};
use crate::publish::DoubleBuffer;
use crate::samples::{LevelSample, SampleHandle};
use crossbeam_channel::Sender;

verus! {

broadcast use vstd::std_specs::hash::group_hash_axioms;

/// The id of the master fader.
pub const MASTER_ID: usize = 1;

/// Why a control-plane call failed.
#[derive(PartialEq, Eq, Structural, Clone, Copy, Debug)]
pub enum ControlError {
    /// No fader or instrument has the id.
    NotFound,
}

/// The control thread's handle on the engine.
pub struct Control {
    pub buffers: DoubleBuffer,
    /// The next id to hand out; ids are never reused.
    pub next_id: usize,
    /// The fader created along with each instrument.
    pub instrument_faders: HashMap<usize, usize>,
    /// The queue to the audio thread, once it runs.
    pub play_queue: Option<Sender<ProcessorMessage>>,
    /// A change already made live but not yet made to the other snapshot;
    /// it waits for publication to the audio thread.
    pub pending: Vec<Mutation>,
}

impl Control {
    /// The topology as the control plane has made it: the live snapshot.
    pub open spec fn state(&self) -> StateView {
        self.buffers.live_view()
    }

    /// Whether a change waits to be published to the audio thread.
    pub open spec fn awaits_publication(&self) -> bool {
        self.pending@.len() > 0
    }

    pub open spec fn wf(&self) -> bool {
        &&& !self.awaits_publication() ==> self.buffers.wf()
        &&& self.awaits_publication() ==> {
            &&& self.buffers.attached
            &&& self.buffers.live_view() == apply_all(self.buffers.shadow_view(), self.pending@)
        }
        &&& self.state().master < self.next_id
        &&& unique_sources(self.state())
        &&& forall|k: usize| #[trigger]
            self.state().instruments.contains_key(k) ==> k < self.next_id
                && self.state().instruments[k].wf()
        &&& forall|k: usize| #[trigger] self.state().faders.contains_key(k) ==> k < self.next_id
        &&& forall|k: usize| #[trigger]
            self.state().sources.contains_key(k) ==> self.state().faders.contains_key(k)
        &&& forall|k: usize| #[trigger]
            self.instrument_faders@.contains_key(k) ==> k < self.next_id
                && self.instrument_faders@[k] < self.next_id
    }

    /// Everything but the topology is as in `old`.
    pub open spec fn same_setup(&self, old: &Control) -> bool {
        &&& self.buffers.attached == old.buffers.attached
        &&& self.next_id == old.next_id
        &&& self.instrument_faders == old.instrument_faders
        &&& self.play_queue == old.play_queue
    }

    /// A change of one mutation is waiting exactly when an audio thread
    /// is attached.
    pub open spec fn staged_if_attached(&self, old: &Control) -> bool {
        self.awaits_publication() == old.buffers.attached
    }

    /// An engine with a master fader at unit gain and nothing else, not yet
    /// attached to an audio thread.
    pub fn new() -> (r: Control)
        ensures
            r.wf(),
            !r.buffers.attached,
            !r.awaits_publication(),
            r.play_queue is None,
            r.next_id == MASTER_ID + 1,
            r.state().master == MASTER_ID,
            r.state().faders.dom() == set![MASTER_ID],
            r.state().faders[MASTER_ID].name@ == "Master"@,
            r.state().instruments.is_empty(),
            r.state().notes.is_empty(),
            r.state().sources.is_empty(),
    {
        let master = Arc::new(Fader::initu32("Master", UNITY));
        let mut first = SharedState::new(FaderRef { tcid: MASTER_ID });
        let mut second = SharedState::new(FaderRef { tcid: MASTER_ID });
        let m = Mutation::AddFader { id: MASTER_ID, fader: master };
        first.apply(&m);
        second.apply(&m);
        proof {
            reveal_strlit("Master");
            assert(first@.faders.dom() =~= set![MASTER_ID]);
        }
        Control {
            buffers: DoubleBuffer::new(first, second),
            next_id: MASTER_ID + 1,
            instrument_faders: HashMap::new(),
            play_queue: None,
            pending: Vec::new(),
        }
    }

    pub fn is_running(&self) -> (r: bool)
        ensures
            r == self.buffers.attached,
    {
        self.buffers.attached
    }

    /// How many ids are left to hand out.
    pub fn ids_left(&self) -> (r: usize)
        ensures
            r == usize::MAX - self.next_id,
    {
        usize::MAX - self.next_id
    }

    /// Attaches an audio thread, once: the processor it is to run, or
    /// nothing where one is attached already.
    pub fn start_engine(&mut self) -> (r: Option<Processor>)
        requires
            old(self).wf(),
        ensures
            final(self).wf(),
            final(self).state() == old(self).state(),
            old(self).buffers.attached ==> r is None && final(self).play_queue == old(
                self,
            ).play_queue,
            !old(self).buffers.attached ==> (r matches Some(p) && p.voices@.len() == 0
                && final(self).play_queue is Some),
            final(self).buffers.attached,
            final(self).next_id == old(self).next_id,
            final(self).instrument_faders == old(self).instrument_faders,
    {
        if self.buffers.attached {
            return None;
        }
        let (processor, tx) = Processor::new();
        self.buffers.attach();
        assert(self.state() == old(self).state());
        self.play_queue = Some(tx);
        Some(processor)
    }

    /// Looks a fader up in the topology.
    fn has_fader(&self, id: usize) -> (r: bool)
        requires
            self.wf(),
        ensures
            r == self.state().faders.contains_key(id),
    {
        self.buffers.live().fader_map.contains_key(&id)
    }

    /// Whether a change waits to be published to the audio thread.
    pub fn is_pending(&self) -> (r: bool)
        ensures
            r == self.awaits_publication(),
    {
        self.pending.len() > 0
    }

    /// The snapshot the audio thread is to read.
    pub fn live(&self) -> (r: &SharedState)
        ensures
            r@ == self.state(),
    {
        self.buffers.live()
    }

    /// Makes a batch of mutations. With an audio thread attached they go to
    /// the shadow, which becomes live and waits, as `pending`, for
    /// publication and `settle`; the snapshot being read is untouched.
    /// Without one, both snapshots change at once and nothing waits.
    fn submit(&mut self, ms: Vec<Mutation>)
        requires
            old(self).wf(),
            old(self).pending@.len() == 0,
        ensures
            final(self).state() == apply_all(old(self).state(), ms@),
            final(self).pending@ == if old(self).buffers.attached {
                ms@
            } else {
                Seq::empty()
            },
            !final(self).awaits_publication() ==> final(self).buffers.wf(),
            final(self).awaits_publication() ==> final(self).buffers.live_view() == apply_all(
                final(self).buffers.shadow_view(),
                final(self).pending@,
            ),
            final(self).same_setup(old(self)),
            unique_sources(final(self).state()),
    {
        proof {
            lemma_batch_keeps_unique(old(self).state(), ms@);
        }
        if self.buffers.attached {
            if ms.len() > 0 {
                self.buffers.stage(&ms);
                self.pending = ms;
            } else {
                assert(ms@ =~= Seq::<Mutation>::empty());
            }
        } else {
            self.buffers.apply_detached(&ms);
        }
    }

    /// Applies `m`, staged as `submit` says.
    fn change(&mut self, m: Mutation)
        requires
            old(self).wf(),
            old(self).pending@.len() == 0,
        ensures
            final(self).state() == apply_mutation(old(self).state(), m),
            final(self).pending@.len() == 0 ==> final(self).buffers.wf(),
            final(self).awaits_publication() ==> final(self).buffers.attached
                && final(self).buffers.live_view() == apply_all(
                final(self).buffers.shadow_view(),
                final(self).pending@,
            ),
            final(self).staged_if_attached(old(self)),
            final(self).same_setup(old(self)),
            unique_sources(final(self).state()),
    {
        let mut ms: Vec<Mutation> = Vec::new();
        ms.push(m);
        proof {
            lemma_apply_one(old(self).state(), m);
            assert(ms@ =~= seq![m]);
        }
        self.submit(ms);
    }

    /// Completes a staged change, to be called once the live snapshot is
    /// published to the audio thread and no read of the other one can be in
    /// flight: the other snapshot gets the same change. Nothing happens when
    /// no change waits.
    pub fn settle(&mut self)
        requires
            old(self).wf(),
        ensures
            final(self).wf(),
            !final(self).awaits_publication(),
            final(self).state() == old(self).state(),
            final(self).buffers.shidx == old(self).buffers.shidx,
            final(self).same_setup(old(self)),
    {
        if self.pending.len() > 0 {
            self.buffers.settle(&self.pending);
            self.pending = Vec::new();
        }
    }

    /// Creates a fader at unit gain, centred, with no edge into it.
    pub fn fader_new(&mut self, name: &str) -> (r: FaderRef)
        requires
            old(self).wf(),
            old(self).next_id < usize::MAX,
            old(self).pending@.len() == 0,
        ensures
            final(self).wf(),
            r.tcid == old(self).next_id,
            final(self).next_id == old(self).next_id + 1,
            !old(self).state().faders.contains_key(r.tcid),
            final(self).state() == (StateView {
                faders: old(self).state().faders.insert(r.tcid, final(self).state().faders[r.tcid]),
                ..old(self).state()
            }),
            final(self).state().faders[r.tcid].name@ == name@,
            final(self).buffers.attached == old(self).buffers.attached,
            final(self).instrument_faders == old(self).instrument_faders,
            final(self).play_queue == old(self).play_queue,
            final(self).staged_if_attached(old(self)),
    {
        let id = self.next_id;
        let fader = Arc::new(Fader::initu32(name, UNITY));
        self.change(Mutation::AddFader { id, fader });
        self.next_id = id + 1;
        FaderRef { tcid: id }
    }

    /// Deletes a fader, the edges into it and every edge from it.
    pub fn fader_delete(&mut self, fader_ref: &FaderRef)
        requires
            old(self).wf(),
            old(self).pending@.len() == 0,
        ensures
            final(self).wf(),
            final(self).state() == apply_mutation(
                old(self).state(),
                Mutation::RemoveFader { id: fader_ref.tcid },
            ),
            final(self).same_setup(old(self)),
            final(self).staged_if_attached(old(self)),
    {
        self.change(Mutation::RemoveFader { id: fader_ref.tcid });
    }

    pub fn fader_get_internal_id(&self, fader_ref: &FaderRef) -> (r: usize)
        ensures
            r == fader_ref.tcid,
    {
        fader_ref.tcid
    }

    /// Routes fader `src` into fader `dst`, once however often it is asked;
    /// nothing happens where `dst` is unknown.
    pub fn fader_add_fader_src(
        &mut self,
        dst: &FaderRef,
        src: &FaderRef,
    )
        requires
            old(self).wf(),
            old(self).pending@.len() == 0,
        ensures
            final(self).wf(),
            final(self).state() == if old(self).state().faders.contains_key(dst.tcid) {
                apply_mutation(
                    old(self).state(),
                    Mutation::AddSource { dst: dst.tcid, src: FaderSourceType::FaderSrc(src.tcid) },
                )
            } else {
                old(self).state()
            },
            final(self).same_setup(old(self)),
            old(self).state().faders.contains_key(dst.tcid) ==> occurrences(
                sources_of(final(self).state().sources, dst.tcid),
                FaderSourceType::FaderSrc(src.tcid),
            ) == 1,
            final(self).awaits_publication() == (old(self).buffers.attached
                && old(self).state().faders.contains_key(dst.tcid)),
    {
        proof {
            if old(self).state().faders.contains_key(dst.tcid) {
                if old(self).state().sources.contains_key(dst.tcid) {
                    assert(old(self).state().sources[dst.tcid].no_duplicates());
                } else {
                    assert(sources_of(old(self).state().sources, dst.tcid).no_duplicates());
                }
                lemma_route_dedup(old(self).state(), dst.tcid, FaderSourceType::FaderSrc(src.tcid));
            }
        }
        if self.has_fader(dst.tcid) {
            self.change(
                Mutation::AddSource { dst: dst.tcid, src: FaderSourceType::FaderSrc(src.tcid) });
        }
    }

    /// Removes the route from fader `src` into fader `dst`; nothing happens
    /// where `dst` is unknown.
    pub fn fader_del_fader_src(
        &mut self,
        dst: &FaderRef,
        src: &FaderRef,
    )
        requires
            old(self).wf(),
            old(self).pending@.len() == 0,
        ensures
            final(self).wf(),
            final(self).state() == if old(self).state().faders.contains_key(dst.tcid) {
                apply_mutation(
                    old(self).state(),
                    Mutation::RemoveSource {
                        dst: dst.tcid,
                        src: FaderSourceType::FaderSrc(src.tcid),
                    },
                )
            } else {
                old(self).state()
            },
            final(self).same_setup(old(self)),
            final(self).awaits_publication() == (old(self).buffers.attached
                && old(self).state().faders.contains_key(dst.tcid)),
    {
        if self.has_fader(dst.tcid) {
            self.change(
                Mutation::RemoveSource { dst: dst.tcid, src: FaderSourceType::FaderSrc(src.tcid) });
        }
    }

    /// Routes instrument `src` into fader `dst`, once however often it is
    /// asked; nothing happens where `dst` is unknown.
    pub fn fader_add_instrument_src(
        &mut self,
        dst: &FaderRef,
        src: &InstrumentRef,
    )
        requires
            old(self).wf(),
            old(self).pending@.len() == 0,
        ensures
            final(self).wf(),
            final(self).state() == if old(self).state().faders.contains_key(dst.tcid) {
                apply_mutation(
                    old(self).state(),
                    Mutation::AddSource {
                        dst: dst.tcid,
                        src: FaderSourceType::InstrumentSrc(src.tcid),
                    },
                )
            } else {
                old(self).state()
            },
            final(self).same_setup(old(self)),
            old(self).state().faders.contains_key(dst.tcid) ==> occurrences(
                sources_of(final(self).state().sources, dst.tcid),
                FaderSourceType::InstrumentSrc(src.tcid),
            ) == 1,
            final(self).awaits_publication() == (old(self).buffers.attached
                && old(self).state().faders.contains_key(dst.tcid)),
    {
        proof {
            if old(self).state().faders.contains_key(dst.tcid) {
                if old(self).state().sources.contains_key(dst.tcid) {
                    assert(old(self).state().sources[dst.tcid].no_duplicates());
                } else {
                    assert(sources_of(old(self).state().sources, dst.tcid).no_duplicates());
                }
                lemma_route_dedup(old(self).state(), dst.tcid, FaderSourceType::InstrumentSrc(src.tcid));
            }
        }
        if self.has_fader(dst.tcid) {
            self.change(
                Mutation::AddSource {
                    dst: dst.tcid,
                    src: FaderSourceType::InstrumentSrc(src.tcid),
                });
        }
    }

    /// Sets a fader's gain at once, without a change of topology; nothing
    /// happens where the fader is unknown.
    pub fn fader_set_gain(&self, fader: &FaderRef, gain: u32) {
        match self.buffers.live().fader_map.get(&fader.tcid) {
            Some(f) => f.set_gain(gain),
            None => {},
        }
    }

    /// A fader's current gain, or `NotFound` where the fader is unknown.
    pub fn fader_get_gain(&self, fader: &FaderRef) -> (r: Result<u32, ControlError>)
        requires
            self.wf(),
        ensures
            r is Err <==> !self.state().faders.contains_key(fader.tcid),
            r matches Err(e) ==> e == ControlError::NotFound,
            r matches Ok(g) ==> g <= UNITY,
    {
        match self.buffers.live().fader_map.get(&fader.tcid) {
            Some(f) => Ok(f.get_gain()),
            None => Err(ControlError::NotFound),
        }
    }

    /// Sets a fader's pan at once, without a change of topology; nothing
    /// happens where the fader is unknown.
    pub fn fader_set_panning(&self, fader: &FaderRef, panning: u32) {
        match self.buffers.live().fader_map.get(&fader.tcid) {
            Some(f) => f.set_panning(panning),
            None => {},
        }
    }

    pub fn get_master_fader(&self) -> (r: FaderRef)
        requires
            self.wf(),
        ensures
            r.tcid == self.state().master,
    {
        self.buffers.live().master.clone()
    }

    /// Creates an instrument with no layer, and a fader of the same name,
    /// centred at unit gain, with the instrument as its one source.
    pub fn instrument_new(&mut self, name: &str) -> (r: InstrumentRef)
        requires
            old(self).wf(),
            old(self).next_id < usize::MAX - 1,
            old(self).pending@.len() == 0,
        ensures
            final(self).wf(),
            r.tcid == old(self).next_id,
            final(self).next_id == old(self).next_id + 2,
            final(self).instrument_faders@ == old(self).instrument_faders@.insert(
                r.tcid,
                (r.tcid + 1) as usize,
            ),
            !old(self).state().instruments.contains_key(r.tcid),
            !old(self).state().faders.contains_key((r.tcid + 1) as usize),
            final(self).state().instruments == old(self).state().instruments.insert(
                r.tcid,
                final(self).state().instruments[r.tcid],
            ),
            final(self).state().instruments[r.tcid].layers().len() == 0,
            final(self).state().faders == old(self).state().faders.insert(
                (r.tcid + 1) as usize,
                final(self).state().faders[(r.tcid + 1) as usize],
            ),
            final(self).state().faders[(r.tcid + 1) as usize].name@ == name@,
            final(self).state().sources == old(self).state().sources.insert(
                (r.tcid + 1) as usize,
                seq![FaderSourceType::InstrumentSrc(r.tcid)],
            ),
            final(self).state().notes == old(self).state().notes,
            final(self).state().master == old(self).state().master,
            (r.tcid + 1) as usize != final(self).state().master,
            final(self).buffers.attached == old(self).buffers.attached,
            final(self).play_queue == old(self).play_queue,
            final(self).staged_if_attached(old(self)),
    {
        let id = self.next_id;
        let f = id + 1;
        let instrument = Arc::new(Instrument::create(name));
        let fader = Arc::new(Fader::initu32(name, UNITY));
        let src = FaderSourceType::InstrumentSrc(id);
        let mut ms: Vec<Mutation> = Vec::new();
        ms.push(Mutation::AddInstrument { id, instrument });
        ms.push(Mutation::AddFader { id: f, fader });
        ms.push(Mutation::AddSource { dst: f, src });
        let ghost s0 = self.state();
        let ghost s1 = apply_mutation(s0, ms@[0]);
        let ghost s2 = apply_mutation(s1, ms@[1]);
        proof {
            lemma_apply_three(s0, ms@[0], ms@[1], ms@[2]);
            assert(ms@ =~= seq![ms@[0], ms@[1], ms@[2]]);
            assert(!s0.faders.contains_key(f));
            assert(!s2.sources.contains_key(f));
            assert(sources_of(s2.sources, f) =~= Seq::<FaderSourceType>::empty());
            assert(seq![src] =~= Seq::<FaderSourceType>::empty().push(src));
        }
        self.submit(ms);
        self.next_id = id + 2;
        self.instrument_faders.insert(id, f);
        InstrumentRef { tcid: id }
    }

    /// Deletes an instrument: its notes, every edge from it, and the fader
    /// created along with it, with the edges into and from that fader.
    pub fn instrument_delete(&mut self, instrument: &InstrumentRef)
        requires
            old(self).wf(),
            old(self).pending@.len() == 0,
        ensures
            final(self).wf(),
            final(self).state() == if old(self).instrument_faders@.contains_key(instrument.tcid) {
                apply_mutation(
                    apply_mutation(
                        old(self).state(),
                        Mutation::RemoveFader {
                            id: old(self).instrument_faders@[instrument.tcid],
                        },
                    ),
                    Mutation::RemoveInstrument { id: instrument.tcid },
                )
            } else {
                apply_mutation(old(self).state(), Mutation::RemoveInstrument { id: instrument.tcid })
            },
            final(self).instrument_faders@ == old(self).instrument_faders@.remove(instrument.tcid),
            no_reference_to_instrument(final(self).state(), instrument.tcid),
            old(self).instrument_faders@.contains_key(instrument.tcid) ==> no_reference_to_fader(
                final(self).state(),
                old(self).instrument_faders@[instrument.tcid],
            ),
            final(self).next_id == old(self).next_id,
            final(self).buffers.attached == old(self).buffers.attached,
            final(self).play_queue == old(self).play_queue,
            final(self).staged_if_attached(old(self)),
    {
        let id = instrument.tcid;
        let own = match self.instrument_faders.get(&id) {
            Some(f) => Some(*f),
            None => None,
        };
        let mut ms: Vec<Mutation> = Vec::new();
        match own {
            Some(f) => {
                ms.push(Mutation::RemoveFader { id: f });
                ms.push(Mutation::RemoveInstrument { id });
                proof {
                    lemma_apply_two(old(self).state(), ms@[0], ms@[1]);
                    assert(ms@ =~= seq![ms@[0], ms@[1]]);
                    lemma_deletion_leaves_no_reference(old(self).state(), id, f);
                }
                self.instrument_faders.remove(&id);
            },
            None => {
                ms.push(Mutation::RemoveInstrument { id });
                proof {
                    lemma_apply_one(old(self).state(), ms@[0]);
                    assert(ms@ =~= seq![ms@[0]]);
                }
            },
        }
        proof {
            lemma_removal_leaves_no_reference(old(self).state(), id);
        }
        self.submit(ms);
    }

    /// Makes `note` trigger the instrument.
    pub fn instrument_set_note(&mut self, instrument: &InstrumentRef, note: u8)
        requires
            old(self).wf(),
            old(self).pending@.len() == 0,
        ensures
            final(self).wf(),
            final(self).state() == apply_mutation(
                old(self).state(),
                Mutation::AssignNote { note, id: instrument.tcid },
            ),
            final(self).same_setup(old(self)),
            final(self).staged_if_attached(old(self)),
    {
        self.change(Mutation::AssignNote { note, id: instrument.tcid });
    }

    /// Adds a layer for the handle's sample at the handle's threshold, in
    /// threshold order; `NotFound` where the instrument is unknown.
    pub fn instrument_add_sample(
        &mut self,
        instrument: &InstrumentRef,
        sample: &mut SampleHandle,
    ) -> (r: Result<(), ControlError>)
        requires
            old(self).wf(),
            old(self).pending@.len() == 0,
        ensures
            final(self).wf(),
            final(self).same_setup(old(self)),
            *final(sample) == *old(sample),
            !old(self).state().instruments.contains_key(instrument.tcid) ==> {
                &&& r == Err::<(), ControlError>(ControlError::NotFound)
                &&& final(self).state() == old(self).state()
            },
            old(self).state().instruments.contains_key(instrument.tcid) ==> {
                &&& r is Ok
                &&& final(self).state() == (StateView {
                    instruments: old(self).state().instruments.insert(
                        instrument.tcid,
                        final(self).state().instruments[instrument.tcid],
                    ),
                    ..old(self).state()
                })
                &&& final(self).state().instruments[instrument.tcid].layers() == old(
                    self,
                ).state().instruments[instrument.tcid].layers().insert(
                    layer_slot(
                        old(self).state().instruments[instrument.tcid].layers(),
                        old(sample).trig,
                    ),
                    LevelSample { sample: old(sample).sample, level: old(sample).trig },
                )
            },
            final(self).awaits_publication() == (old(self).buffers.attached
                && old(self).state().instruments.contains_key(instrument.tcid)),
    {
        let id = instrument.tcid;
        let live = self.buffers.live();
        assert(live@ == self.state());
        let mut updated = match live.instr_map.get(&id) {
            Some(current) => {
                assert(self.state().instruments[id] == *current);
                current.duplicate()
            },
            None => {
                return Err(ControlError::NotFound);
            },
        };
        updated.add_sample(sample);
        self.change(Mutation::AddInstrument { id, instrument: Arc::new(updated) });
        Ok(())
    }

    /// A fader with an edge from the instrument: the one created along with
    /// it while that still has the edge, else any other that has one;
    /// `NotFound` where none has.
    pub fn instrument_get_fader(&self, instrument: &InstrumentRef) -> (r: Result<
        FaderRef,
        ControlError,
    >)
        requires
            self.wf(),
        ensures
            match r {
                Ok(f) => self.state().sources.contains_key(f.tcid) && self.state().sources[
                    f.tcid
                ].contains(FaderSourceType::InstrumentSrc(instrument.tcid)),
                Err(e) => e == ControlError::NotFound && forall|k: usize| #[trigger]
                    self.state().sources.contains_key(k) ==> !self.state().sources[k].contains(
                        FaderSourceType::InstrumentSrc(instrument.tcid),
                    ),
            },
            ({
                let own = self.instrument_faders@[instrument.tcid];
                &&& self.instrument_faders@.contains_key(instrument.tcid)
                &&& self.state().sources.contains_key(own)
                &&& self.state().sources[own].contains(
                    FaderSourceType::InstrumentSrc(instrument.tcid),
                )
            }) ==> r == Ok::<FaderRef, ControlError>(
                FaderRef { tcid: self.instrument_faders@[instrument.tcid] },
            ),
    {
        let live = self.buffers.live();
        assert(live@ == self.state());
        let e = FaderSourceType::InstrumentSrc(instrument.tcid);
        match self.instrument_faders.get(&instrument.tcid) {
            Some(f) => match live.fsrc_map.get(f) {
                Some(v) => {
                    assert(self.state().sources[*f] == v@);
                    if has_source(v, e) {
                        return Ok(FaderRef { tcid: *f });
                    }
                },
                None => {},
            },
            None => {},
        }
        match live.find_instrument_fader_idx(instrument) {
            Some(k) => Ok(FaderRef { tcid: k }),
            None => Err(ControlError::NotFound),
        }
    }

    /// The request that asks the audio thread to play an instrument.
    pub fn play_request(iptr: usize, velocity: u8) -> (m: ProcessorMessage)
        ensures
            m == (ProcessorMessage::PlayInstrument { iptr, velocity }),
    {
        ProcessorMessage::PlayInstrument { iptr, velocity }
    }

    /// Asks the audio thread to play the instrument, without blocking:
    /// whether the request was queued. Before the engine runs it never is.
    pub fn instrument_play(&self, instr: &InstrumentRef, velocity: u8) -> (r: bool)
        ensures
            self.play_queue is None ==> !r,
    {
        match &self.play_queue {
            None => false,
            Some(sender) => send_message(sender, Control::play_request(instr.tcid, velocity)),
        }
    }
}

/// No table of `st` mentions instrument `i`.
pub open spec fn no_reference_to_instrument(st: StateView, i: usize) -> bool {
    &&& !st.instruments.contains_key(i)
    &&& forall|n: u8| #[trigger] st.notes.contains_key(n) ==> st.notes[n] != i
    &&& forall|k: usize| #[trigger]
        st.sources.contains_key(k) ==> !st.sources[k].contains(FaderSourceType::InstrumentSrc(i))
}

/// No table of `st` mentions fader `f`.
pub open spec fn no_reference_to_fader(st: StateView, f: usize) -> bool {
    &&& !st.faders.contains_key(f)
    &&& !st.sources.contains_key(f)
    &&& forall|k: usize| #[trigger]
        st.sources.contains_key(k) ==> !st.sources[k].contains(FaderSourceType::FaderSrc(f))
}

/// Removing instrument `i` leaves no reference to it in any table.
pub proof fn lemma_removal_leaves_no_reference(st: StateView, i: usize)
    ensures
        no_reference_to_instrument(
            apply_mutation(st, Mutation::RemoveInstrument { id: i }),
            i,
        ),
{
    let s2 = apply_mutation(st, Mutation::RemoveInstrument { id: i });
    assert forall|k: usize| #[trigger] s2.sources.contains_key(k) implies !s2.sources[k].contains(
        FaderSourceType::InstrumentSrc(i),
    ) by {
        lemma_without_excludes(
            st.sources[k],
            FaderSourceType::InstrumentSrc(i),
            FaderSourceType::InstrumentSrc(i),
        );
    }
}

/// Deleting an instrument together with its own fader `f` leaves no
/// reference to either in any table.
pub proof fn lemma_deletion_leaves_no_reference(st: StateView, i: usize, f: usize)
    ensures
        no_reference_to_instrument(
            apply_mutation(
                apply_mutation(st, Mutation::RemoveFader { id: f }),
                Mutation::RemoveInstrument { id: i },
            ),
            i,
        ),
        no_reference_to_fader(
            apply_mutation(
                apply_mutation(st, Mutation::RemoveFader { id: f }),
                Mutation::RemoveInstrument { id: i },
            ),
            f,
        ),
{
    let s1 = apply_mutation(st, Mutation::RemoveFader { id: f });
    let s2 = apply_mutation(s1, Mutation::RemoveInstrument { id: i });
    lemma_removal_leaves_no_reference(s1, i);
    assert forall|k: usize| #[trigger] s2.sources.contains_key(k) implies !s2.sources[k].contains(
        FaderSourceType::FaderSrc(f),
    ) by {
        lemma_without_excludes(
            st.sources.remove(f)[k],
            FaderSourceType::FaderSrc(f),
            FaderSourceType::FaderSrc(f),
        );
        lemma_without_excludes(
            s1.sources[k],
            FaderSourceType::InstrumentSrc(i),
            FaderSourceType::FaderSrc(f),
        );
    }
}


pub proof fn lemma_apply_one(st: StateView, a: Mutation)
    ensures
        apply_all(st, seq![a]) == apply_mutation(st, a),
{
    assert(seq![a].drop_last() =~= Seq::<Mutation>::empty());
    assert(apply_all(st, Seq::<Mutation>::empty()) == st);
    assert(seq![a].last() == a);
}

pub proof fn lemma_apply_two(st: StateView, a: Mutation, b: Mutation)
    ensures
        apply_all(st, seq![a, b]) == apply_mutation(apply_mutation(st, a), b),
{
    assert(seq![a, b].drop_last() =~= seq![a]);
    assert(seq![a, b].last() == b);
    lemma_apply_one(st, a);
}

pub proof fn lemma_apply_three(st: StateView, a: Mutation, b: Mutation, c: Mutation)
    ensures
        apply_all(st, seq![a, b, c]) == apply_mutation(
            apply_mutation(apply_mutation(st, a), b),
            c,
        ),
{
    assert(seq![a, b, c].drop_last() =~= seq![a, b]);
    assert(seq![a, b, c].last() == c);
    lemma_apply_two(st, a, b);
}

} // verus!
