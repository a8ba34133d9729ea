//! The mixing topology shared with the audio thread, and the audio
//! thread's own state.
use std::collections::HashMap;
use std::sync::Arc;
use vstd::prelude::*;
use vstd::std_specs::iter::IteratorSpec;

use crate::fader::Fader;
use crate::fader::FaderRef;
use crate::fader::UNITY;
use crate::instrument::{chosen_layer, Instrument, InstrumentRef};
use crate::mixing::{render_channel, ActiveVoice, Levels};
use crate::samples::PlayingSample;
use crossbeam_channel::{Receiver, Sender};

verus! {

broadcast use vstd::std_specs::hash::group_hash_axioms;

/// Puts the keys of `m` into `out`, each once.
fn key_list<V>(m: &HashMap<usize, V>, out: &mut Vec<usize>)
    ensures
        final(out)@.to_set() == m@.dom(),
        final(out)@.no_duplicates(),
{
    out.clear();
    let keys = m.keys();
    proof {
        broadcast use vstd::std_specs::hash::axiom_spec_keys_iter;
        assert(keys.remaining().unref().to_set() == m@.dom());
    }
    let ghost all = keys.remaining().unref();
    for k in it: keys
        invariant
            it.seq().unref() == all,
            all.to_set() == m@.dom(),
            all.no_duplicates(),
            out@ == all.subrange(0, it.index()),
    {
        out.push(*k);
    }
    assert(out@ =~= all);
}


/// One routing edge into a fader.
#[derive(PartialEq, Eq, Structural, Clone, Copy, Debug)]
pub enum FaderSourceType {
    FaderSrc(usize),
    InstrumentSrc(usize),
}

/// An output channel.
#[derive(PartialEq, Eq, Structural, Clone, Copy, Debug)]
pub enum Channel {
    Left,
    Right,
}

/// `s` with every occurrence of `e` taken out, the rest in order.
pub open spec fn without(s: Seq<FaderSourceType>, e: FaderSourceType) -> Seq<FaderSourceType>
    decreases s.len(),
{
    if s.len() == 0 {
        s
    } else if s.last() == e {
        without(s.drop_last(), e)
    } else {
        without(s.drop_last(), e).push(s.last())
    }
}

/// `s` with `e` appended, unless `s` already holds it.
pub open spec fn with_source(s: Seq<FaderSourceType>, e: FaderSourceType) -> Seq<
    FaderSourceType,
> {
    if s.contains(e) {
        s
    } else {
        s.push(e)
    }
}

/// The routing edges into fader `f`; none where the table has no entry.
pub open spec fn sources_of(m: Map<usize, Seq<FaderSourceType>>, f: usize) -> Seq<
    FaderSourceType,
> {
    if m.contains_key(f) {
        m[f]
    } else {
        Seq::empty()
    }
}

/// Every edge list of `m` with `e` taken out.
pub open spec fn strip(m: Map<usize, Seq<FaderSourceType>>, e: FaderSourceType) -> Map<
    usize,
    Seq<FaderSourceType>,
> {
    Map::new(|k: usize| m.contains_key(k), |k: usize| without(m[k], e))
}

/// The note table without the notes assigned to instrument `id`.
pub open spec fn notes_without(m: Map<u8, usize>, id: usize) -> Map<u8, usize> {
    Map::new(|n: u8| m.contains_key(n) && m[n] != id, |n: u8| m[n])
}

/// The contents of one topology snapshot.
pub struct StateView {
    pub instruments: Map<usize, Arc<Instrument>>,
    pub faders: Map<usize, Arc<Fader>>,
    pub notes: Map<u8, usize>,
    pub sources: Map<usize, Seq<FaderSourceType>>,
    pub master: usize,
}

/// One topology snapshot: instruments, faders, the note table, the routing
/// edges into each fader, and the master fader.
pub struct SharedState {
    pub instr_map: HashMap<usize, Arc<Instrument>>,
    pub fader_map: HashMap<usize, Arc<Fader>>,
    pub note_map: HashMap<u8, usize>,
    pub fsrc_map: HashMap<usize, Vec<FaderSourceType>>,
    pub master: FaderRef,
}

impl View for SharedState {
    type V = StateView;

    open spec fn view(&self) -> StateView {
        StateView {
            instruments: self.instr_map@,
            faders: self.fader_map@,
            notes: self.note_map@,
            sources: self.fsrc_map@.map_values(|v: Vec<FaderSourceType>| v@),
            master: self.master.tcid,
        }
    }
}

/// A change of topology, applied alike to each snapshot.
pub enum Mutation {
    /// Adds the instrument under `id`, or replaces the one there.
    AddInstrument { id: usize, instrument: Arc<Instrument> },
    /// Removes the instrument, its notes and every edge from it.
    RemoveInstrument { id: usize },
    /// Adds the fader under `id`, or replaces the one there.
    AddFader { id: usize, fader: Arc<Fader> },
    /// Removes the fader, the edges into it and every edge from it.
    RemoveFader { id: usize },
    /// Makes `note` trigger instrument `id`.
    AssignNote { note: u8, id: usize },
    /// Adds an edge into `dst`, unless it is there already.
    AddSource { dst: usize, src: FaderSourceType },
    /// Removes an edge into `dst`.
    RemoveSource { dst: usize, src: FaderSourceType },
}

/// What a mutation makes of a snapshot.
pub open spec fn apply_mutation(st: StateView, m: Mutation) -> StateView {
    match m {
        Mutation::AddInstrument { id, instrument } => StateView {
            instruments: st.instruments.insert(id, instrument),
            ..st
        },
        Mutation::RemoveInstrument { id } => StateView {
            instruments: st.instruments.remove(id),
            notes: notes_without(st.notes, id),
            sources: strip(st.sources, FaderSourceType::InstrumentSrc(id)),
            ..st
        },
        Mutation::AddFader { id, fader } => StateView { faders: st.faders.insert(id, fader), ..st },
        Mutation::RemoveFader { id } => StateView {
            faders: st.faders.remove(id),
            sources: strip(st.sources.remove(id), FaderSourceType::FaderSrc(id)),
            ..st
        },
        Mutation::AssignNote { note, id } => StateView { notes: st.notes.insert(note, id), ..st },
        Mutation::AddSource { dst, src } => StateView {
            sources: st.sources.insert(dst, with_source(sources_of(st.sources, dst), src)),
            ..st
        },
        Mutation::RemoveSource { dst, src } => StateView {
            sources: st.sources.insert(dst, without(sources_of(st.sources, dst), src)),
            ..st
        },
    }
}

/// What a batch of mutations, applied in order, makes of a snapshot.
pub open spec fn apply_all(st: StateView, ms: Seq<Mutation>) -> StateView
    decreases ms.len(),
{
    if ms.len() == 0 {
        st
    } else {
        apply_mutation(apply_all(st, ms.drop_last()), ms.last())
    }
}

/// Whether `v` holds `e`.
pub(crate) fn has_source(v: &Vec<FaderSourceType>, e: FaderSourceType) -> (r: bool)
    ensures
        r == v@.contains(e),
{
    let mut i: usize = 0;
    while i < v.len()
        invariant
            i <= v@.len(),
            forall|j: int| 0 <= j < i ==> v@[j] != e,
        decreases v.len() - i,
    {
        if v[i] == e {
            return true;
        }
        i = i + 1;
    }
    false
}

/// A copy of `v` without `e`.
fn without_source(v: &Vec<FaderSourceType>, e: FaderSourceType) -> (r: Vec<FaderSourceType>)
    ensures
        r@ == without(v@, e),
{
    let mut out: Vec<FaderSourceType> = Vec::new();
    let mut i: usize = 0;
    while i < v.len()
        invariant
            i <= v@.len(),
            out@ == without(v@.subrange(0, i as int), e),
        decreases v.len() - i,
    {
        proof {
            let s = v@.subrange(0, i + 1);
            assert(s.drop_last() =~= v@.subrange(0, i as int));
        }
        if v[i] != e {
            out.push(v[i]);
        }
        i = i + 1;
    }
    assert(v@.subrange(0, v@.len() as int) =~= v@);
    out
}

impl SharedState {
    /// An empty snapshot whose master fader is `master`.
    pub fn new(master: FaderRef) -> (r: SharedState)
        ensures
            r@ == (StateView {
                instruments: Map::empty(),
                faders: Map::empty(),
                notes: Map::empty(),
                sources: Map::empty(),
                master: master.tcid,
            }),
    {
        let r = SharedState {
            instr_map: HashMap::new(),
            fader_map: HashMap::new(),
            note_map: HashMap::new(),
            fsrc_map: HashMap::new(),
            master,
        };
        assert(r@.sources =~= Map::empty());
        assert(r@.instruments =~= Map::empty());
        assert(r@.faders =~= Map::empty());
        assert(r@.notes =~= Map::empty());
        r
    }

    pub fn set_master(&mut self, fref: FaderRef)
        ensures
            final(self)@ == (StateView { master: fref.tcid, ..old(self)@ }),
    {
        self.master = fref;
    }

    /// A fader with an edge from the instrument, if any has one.
    pub fn find_instrument_fader_idx(&self, instrument: &InstrumentRef) -> (r: Option<usize>)
        ensures
            match r {
                Some(k) => self@.sources.contains_key(k) && self@.sources[k].contains(
                    FaderSourceType::InstrumentSrc(instrument.tcid),
                ),
                None => forall|k: usize| #[trigger]
                    self@.sources.contains_key(k) ==> !self@.sources[k].contains(
                        FaderSourceType::InstrumentSrc(instrument.tcid),
                    ),
            },
    {
        let e = FaderSourceType::InstrumentSrc(instrument.tcid);
        let mut keys: Vec<usize> = Vec::new();
        key_list(&self.fsrc_map, &mut keys);
        let mut i: usize = 0;
        while i < keys.len()
            invariant
                i <= keys@.len(),
                keys@.to_set() == self@.sources.dom(),
                e == FaderSourceType::InstrumentSrc(instrument.tcid),
                forall|j: int| 0 <= j < i ==> !#[trigger] self@.sources[keys@[j]].contains(e),
            decreases keys.len() - i,
        {
            let k = keys[i];
            proof {
                assert(keys@.to_set().contains(k));
            }
            let v = self.fsrc_map.get(&k).unwrap();
            assert(self@.sources[k] == v@);
            if has_source(v, e) {
                return Some(k);
            }
            i = i + 1;
        }
        proof {
            assert forall|k: usize| #[trigger] self@.sources.contains_key(k) implies !self@.sources[
                k
            ].contains(e) by {
                assert(keys@.to_set().contains(k));
                let j = choose|j: int| 0 <= j < keys@.len() && keys@[j] == k;
            }
        }
        None
    }

    /// Takes every edge from the fader out of every edge list.
    pub fn delete_fader_source(&mut self, fader: &FaderRef)
        ensures
            final(self)@ == (StateView {
                sources: strip(old(self)@.sources, FaderSourceType::FaderSrc(fader.tcid)),
                ..old(self)@
            }),
    {
        self.strip_sources(FaderSourceType::FaderSrc(fader.tcid));
    }

    /// Takes `e` out of every edge list.
    fn strip_sources(&mut self, e: FaderSourceType)
        ensures
            final(self)@ == (StateView { sources: strip(old(self)@.sources, e), ..old(self)@ }),
    {
        let mut keys: Vec<usize> = Vec::new();
        key_list(&self.fsrc_map, &mut keys);
        let ghost old_m = self.fsrc_map@;
        let mut i: usize = 0;
        while i < keys.len()
            invariant
                i <= keys@.len(),
                keys@.to_set() == old_m.dom(),
                keys@.no_duplicates(),
                self.fsrc_map@.dom() == old_m.dom(),
                forall|j: int|
                    0 <= j < i ==> #[trigger] self.fsrc_map@[keys@[j]]@ == without(
                        old_m[keys@[j]]@,
                        e,
                    ),
                forall|k: usize|
                    old_m.contains_key(k) && !keys@.subrange(0, i as int).contains(k)
                        ==> #[trigger] self.fsrc_map@[k] == old_m[k],
                self.instr_map == old(self).instr_map,
                self.fader_map == old(self).fader_map,
                self.note_map == old(self).note_map,
                self.master == old(self).master,
                old_m == old(self).fsrc_map@,
            decreases keys.len() - i,
        {
            let k = keys[i];
            proof {
                assert(keys@.to_set().contains(k));
                assert(!keys@.subrange(0, i as int).contains(k));
            }
            let ghost before = self.fsrc_map@;
            let v = self.fsrc_map.remove(&k).unwrap();
            let nv = without_source(&v, e);
            self.fsrc_map.insert(k, nv);
            proof {
                assert(self.fsrc_map@.dom() =~= old_m.dom());
                assert forall|j: int| 0 <= j < i + 1 implies #[trigger] self.fsrc_map@[keys@[j]]@
                    == without(old_m[keys@[j]]@, e) by {
                    if j < i {
                        assert(keys@[j] != k);
                    }
                }
                assert forall|k2: usize|
                    old_m.contains_key(k2) && !keys@.subrange(0, i + 1).contains(
                        k2,
                    ) implies #[trigger] self.fsrc_map@[k2] == old_m[k2] by {
                    assert(keys@.subrange(0, i + 1)[i as int] == k);
                    if keys@.subrange(0, i as int).contains(k2) {
                        let j = choose|j: int|
                            0 <= j < i && keys@.subrange(0, i as int)[j] == k2;
                        assert(keys@.subrange(0, i + 1)[j] == k2);
                    }
                }
            }
            i = i + 1;
        }
        proof {
            assert forall|k: usize| old_m.contains_key(k) implies #[trigger] self.fsrc_map@[k]@
                == without(old_m[k]@, e) by {
                assert(keys@.to_set().contains(k));
                let j = choose|j: int| 0 <= j < keys@.len() && keys@[j] == k;
            }
            assert(self@.sources =~= strip(old(self)@.sources, e));
        }
    }

    /// Takes out the notes assigned to instrument `id`.
    fn drop_notes_of(&mut self, id: usize)
        ensures
            final(self)@ == (StateView { notes: notes_without(old(self)@.notes, id), ..old(self)@ }),
    {
        let mut n: u16 = 0;
        while n < 256
            invariant
                n <= 256,
                forall|note: u8|
                    (note as u16) < n ==> (#[trigger] self.note_map@.contains_key(note) <==> (
                    old(self).note_map@.contains_key(note) && old(self).note_map@[note] != id)),
                forall|note: u8|
                    (note as u16) >= n ==> (#[trigger] self.note_map@.contains_key(note) <==> old(
                        self,
                    ).note_map@.contains_key(note)),
                forall|note: u8| #[trigger]
                    self.note_map@.contains_key(note) ==> self.note_map@[note] == old(
                        self,
                    ).note_map@[note],
                self.instr_map == old(self).instr_map,
                self.fader_map == old(self).fader_map,
                self.fsrc_map == old(self).fsrc_map,
                self.master == old(self).master,
            decreases 256 - n,
        {
            let note = n as u8;
            let assigned = match self.note_map.get(&note) {
                Some(i) => *i == id,
                None => false,
            };
            if assigned {
                self.note_map.remove(&note);
            }
            n = n + 1;
        }
        assert(self@.notes =~= notes_without(old(self)@.notes, id));
    }

    /// Applies the mutations of `ms` in order.
    pub fn apply_all(&mut self, ms: &Vec<Mutation>)
        ensures
            final(self)@ == apply_all(old(self)@, ms@),
    {
        let mut i: usize = 0;
        while i < ms.len()
            invariant
                i <= ms@.len(),
                self@ == apply_all(old(self)@, ms@.subrange(0, i as int)),
            decreases ms.len() - i,
        {
            proof {
                assert(ms@.subrange(0, i + 1).drop_last() =~= ms@.subrange(0, i as int));
            }
            self.apply(&ms[i]);
            i = i + 1;
        }
        assert(ms@.subrange(0, ms@.len() as int) =~= ms@);
    }

    /// Applies `m` to this snapshot.
    pub fn apply(&mut self, m: &Mutation)
        ensures
            final(self)@ == apply_mutation(old(self)@, *m),
    {
        match m {
            Mutation::AddInstrument { id, instrument } => {
                self.instr_map.insert(*id, crate::samples::share(instrument));
                assert(self@.sources =~= old(self)@.sources);
            },
            Mutation::RemoveInstrument { id } => {
                self.instr_map.remove(id);
                self.drop_notes_of(*id);
                self.strip_sources(FaderSourceType::InstrumentSrc(*id));
            },
            Mutation::AddFader { id, fader } => {
                self.fader_map.insert(*id, crate::samples::share(fader));
                assert(self@.sources =~= old(self)@.sources);
            },
            Mutation::RemoveFader { id } => {
                self.fader_map.remove(id);
                self.fsrc_map.remove(id);
                assert(self@.sources =~= old(self)@.sources.remove(*id));
                self.strip_sources(FaderSourceType::FaderSrc(*id));
            },
            Mutation::AssignNote { note, id } => {
                self.note_map.insert(*note, *id);
                assert(self@.sources =~= old(self)@.sources);
            },
            Mutation::AddSource { dst, src } => {
                let mut v = match self.fsrc_map.remove(dst) {
                    Some(v) => v,
                    None => Vec::new(),
                };
                assert(v@ == sources_of(old(self)@.sources, *dst));
                if !has_source(&v, *src) {
                    v.push(*src);
                }
                self.fsrc_map.insert(*dst, v);
                assert(self@.sources =~= old(self)@.sources.insert(
                    *dst,
                    with_source(sources_of(old(self)@.sources, *dst), *src),
                ));
            },
            Mutation::RemoveSource { dst, src } => {
                let v = match self.fsrc_map.remove(dst) {
                    Some(v) => v,
                    None => Vec::new(),
                };
                assert(v@ == sources_of(old(self)@.sources, *dst));
                let nv = without_source(&v, *src);
                self.fsrc_map.insert(*dst, nv);
                assert(self@.sources =~= old(self)@.sources.insert(
                    *dst,
                    without(sources_of(old(self)@.sources, *dst), *src),
                ));
            },
        }
    }
}


#[verifier::external_type_specification]
#[verifier::external_body]
#[verifier::reject_recursive_types(T)]
pub struct ExSender<T>(crossbeam_channel::Sender<T>);

#[verifier::external_type_specification]
#[verifier::external_body]
#[verifier::reject_recursive_types(T)]
pub struct ExReceiver<T>(crossbeam_channel::Receiver<T>);

/// Relies on `crossbeam_channel::unbounded`: a new channel, sending end
/// first.
#[verifier::external_body]
fn message_channel() -> (Sender<ProcessorMessage>, Receiver<ProcessorMessage>) {
    crossbeam_channel::unbounded()
}

/// Relies on `Receiver::len`: the number of messages waiting at the call;
/// others may arrive at any time.
#[verifier::external_body]
fn waiting_messages(rx: &Receiver<ProcessorMessage>) -> usize {
    rx.len()
}

/// Relies on `Receiver::try_recv`: a waiting message, if there is one,
/// without blocking.
#[verifier::external_body]
fn next_message(rx: &Receiver<ProcessorMessage>) -> Option<ProcessorMessage> {
    rx.try_recv().ok()
}

/// Relies on `Sender::send`: queues the message, and fails only once the
/// receiving end is gone.
#[verifier::external_body]
pub(crate) fn send_message(tx: &Sender<ProcessorMessage>, m: ProcessorMessage) -> bool {
    tx.send(m).is_ok()
}

/// A request from the control thread to the audio thread.
pub enum ProcessorMessage {
    PlayInstrument { iptr: usize, velocity: u8 },
}

/// The voices after a trigger of instrument `iid` at `velocity`: a new voice
/// at the start of the layer the velocity selects, or nothing new where the
/// instrument is unknown or has no layer.
pub open spec fn triggered(st: StateView, vs: Seq<ActiveVoice>, iid: usize, velocity: u8) -> Seq<
    ActiveVoice,
> {
    if st.instruments.contains_key(iid) && st.instruments[iid].layers().len() > 0 {
        let ls = st.instruments[iid].layers();
        vs.push(
            ActiveVoice {
                instrument: iid,
                voice: PlayingSample { sample: ls[chosen_layer(ls, velocity)].sample, position: 0 },
            },
        )
    } else {
        vs
    }
}

/// Whether `v` is a voice that a trigger of a known instrument starts: at
/// the start of the layer that some velocity selects.
pub open spec fn fresh_voice(st: StateView, v: ActiveVoice) -> bool {
    &&& st.instruments.contains_key(v.instrument)
    &&& st.instruments[v.instrument].layers().len() > 0
    &&& v.voice.position == 0
    &&& exists|velocity: u8|
        v.voice.sample == #[trigger] st.instruments[v.instrument].layers()[chosen_layer(
            st.instruments[v.instrument].layers(),
            velocity,
        )].sample
}

/// Whether a raw MIDI event is a note-on with a velocity above zero.
pub open spec fn is_note_on(ev: Seq<u8>) -> bool {
    ev.len() >= 3 && ev[0] & 0xf0u8 == 0x90u8 && ev[2] > 0
}

/// The voices after the raw MIDI event `ev`: a note-on of an assigned note
/// triggers its instrument at the event's velocity; anything else changes
/// nothing.
pub open spec fn after_midi(st: StateView, vs: Seq<ActiveVoice>, ev: Seq<u8>) -> Seq<ActiveVoice> {
    if is_note_on(ev) && st.notes.contains_key(ev[1]) {
        triggered(st, vs, st.notes[ev[1]], ev[2])
    } else {
        vs
    }
}

/// A voice moved on by `n` frames; the cursor stops at `usize::MAX`.
pub open spec fn advanced(v: ActiveVoice, n: usize) -> ActiveVoice {
    ActiveVoice {
        instrument: v.instrument,
        voice: PlayingSample {
            sample: v.voice.sample,
            position: if v.voice.position + n <= usize::MAX {
                (v.voice.position + n) as usize
            } else {
                usize::MAX
            },
        },
    }
}

/// The voices moved on by `n` frames, the finished ones taken out, the rest
/// in order.
pub open spec fn survivors(vs: Seq<ActiveVoice>, n: usize) -> Seq<ActiveVoice>
    decreases vs.len(),
{
    if vs.len() == 0 {
        vs
    } else {
        let rest = survivors(vs.drop_last(), n);
        let a = advanced(vs.last(), n);
        if a.voice.is_finished() {
            rest
        } else {
            rest.push(a)
        }
    }
}

/// The state of the audio thread: its voices, the levels read for the
/// current period, and the queue of requests from the control thread.
pub struct Processor {
    pub voices: Vec<ActiveVoice>,
    pub levels: HashMap<usize, Levels>,
    pub fader_ids: Vec<usize>,
    pub spare: Vec<ActiveVoice>,
    pub messages: Receiver<ProcessorMessage>,
}

impl Processor {
    /// A processor with no voice, and the sending end of its queue.
    pub fn new() -> (r: (Processor, Sender<ProcessorMessage>))
        ensures
            r.0.voices@.len() == 0,
    {
        let (tx, rx) = message_channel();
        (
            Processor {
                voices: Vec::with_capacity(64),
                levels: HashMap::new(),
                fader_ids: Vec::with_capacity(64),
                spare: Vec::with_capacity(64),
                messages: rx,
            },
            tx,
        )
    }

    /// Starts a voice of instrument `iid` at `velocity`, where it exists and
    /// has a layer.
    pub fn start_voice(&mut self, state: &SharedState, iid: usize, velocity: u8)
        ensures
            final(self).voices@ == triggered(state@, old(self).voices@, iid, velocity),
            final(self).levels == old(self).levels,
            final(self).messages == old(self).messages,
    {
        match state.instr_map.get(&iid) {
            None => {},
            Some(instr) => {
                if instr.sample_levels.len() > 0 {
                    let sample = instr.sample_for_level(velocity);
                    let voice = ActiveVoice { instrument: iid, voice: PlayingSample::from_sample(sample) };
                    self.voices.push(voice);
                }
            },
        }
    }

    /// Handles one raw MIDI event.
    pub fn handle_midi(&mut self, state: &SharedState, event: &[u8])
        ensures
            final(self).voices@ == after_midi(state@, old(self).voices@, event@),
            final(self).levels == old(self).levels,
            final(self).messages == old(self).messages,
    {
        if event.len() >= 3 && event[0] & 0xf0u8 == 0x90u8 && event[2] > 0 {
            match state.note_map.get(&event[1]) {
                None => {},
                Some(iid) => {
                    self.start_voice(state, *iid, event[2]);
                },
            }
        }
    }

    /// Handles one request from the control thread.
    pub fn handle_message(&mut self, state: &SharedState, m: ProcessorMessage)
        ensures
            final(self).voices@ == match m {
                ProcessorMessage::PlayInstrument { iptr, velocity } => triggered(
                    state@,
                    old(self).voices@,
                    iptr,
                    velocity,
                ),
            },
            final(self).levels == old(self).levels,
            final(self).messages == old(self).messages,
    {
        match m {
            ProcessorMessage::PlayInstrument { iptr, velocity } => {
                self.start_voice(state, iptr, velocity);
            },
        }
    }

    /// Handles the requests waiting in the queue, without blocking. Every
    /// voice there was stays, and each new one is a voice of a known
    /// instrument.
    pub fn drain_messages(&mut self, state: &SharedState)
        ensures
            final(self).voices@.len() >= old(self).voices@.len(),
            final(self).voices@.subrange(0, old(self).voices@.len() as int) == old(self).voices@,
            forall|i: int|
                old(self).voices@.len() <= i < final(self).voices@.len() ==> fresh_voice(
                    state@,
                    #[trigger] final(self).voices@[i],
                ),
    {
        let n = waiting_messages(&self.messages);
        let mut i: usize = 0;
        while i < n
            invariant
                i <= n,
                self.voices@.len() >= old(self).voices@.len(),
                self.voices@.subrange(0, old(self).voices@.len() as int) == old(self).voices@,
                forall|j: int|
                    old(self).voices@.len() <= j < self.voices@.len() ==> fresh_voice(
                        state@,
                        #[trigger] self.voices@[j],
                    ),
            decreases n - i,
        {
            match next_message(&self.messages) {
                None => {
                    break;
                },
                Some(m) => {
                    let ghost before = self.voices@;
                    let ghost vel = match m {
                        ProcessorMessage::PlayInstrument { iptr, velocity } => velocity,
                    };
                    self.handle_message(state, m);
                    proof {
                        if self.voices@.len() > before.len() {
                            let v = self.voices@[before.len() as int];
                            let ls = state@.instruments[v.instrument].layers();
                            assert(v.voice.sample == ls[chosen_layer(ls, vel)].sample);
                            assert(fresh_voice(state@, v));
                        }
                    }
                    assert(self.voices@.subrange(0, before.len() as int) =~= before);
                    assert(self.voices@.subrange(0, old(self).voices@.len() as int)
                        =~= before.subrange(0, old(self).voices@.len() as int));
                },
            }
            i = i + 1;
        }
    }

    /// Reads the gain and pan of every fader of `state` for this period.
    pub fn refresh_levels(&mut self, state: &SharedState)
        ensures
            final(self).levels@.dom() == state@.faders.dom(),
            forall|f: usize| #[trigger]
                final(self).levels@.contains_key(f) ==> final(self).levels@[f].pan <= UNITY
                    && final(self).levels@[f].gain <= UNITY,
            final(self).voices == old(self).voices,
            final(self).messages == old(self).messages,
    {
        self.levels.clear();
        key_list(&state.fader_map, &mut self.fader_ids);
        let mut i: usize = 0;
        while i < self.fader_ids.len()
            invariant
                i <= self.fader_ids@.len(),
                self.fader_ids@.to_set() == state@.faders.dom(),
                self.levels@.dom() == self.fader_ids@.subrange(0, i as int).to_set(),
                forall|f: usize| #[trigger]
                    self.levels@.contains_key(f) ==> self.levels@[f].pan <= UNITY
                        && self.levels@[f].gain <= UNITY,
                self.voices == old(self).voices,
                self.messages == old(self).messages,
            decreases self.fader_ids.len() - i,
        {
            let f = self.fader_ids[i];
            proof {
                assert(self.fader_ids@.to_set().contains(f));
            }
            let fader = state.fader_map.get(&f).unwrap();
            let l = Levels { gain: fader.get_gain(), pan: fader.get_panning() };
            self.levels.insert(f, l);
            proof {
                assert(self.fader_ids@.subrange(0, i + 1) =~= self.fader_ids@.subrange(
                    0,
                    i as int,
                ).push(f));
                self.fader_ids@.subrange(0, i as int).lemma_push_to_set_commute(f);
                assert(self.levels@.dom() =~= self.fader_ids@.subrange(0, i + 1).to_set());
            }
            i = i + 1;
        }
        assert(self.fader_ids@.subrange(0, self.fader_ids@.len() as int) =~= self.fader_ids@);
    }

    /// Renders one period: handles the waiting requests, reads the levels,
    /// and writes each channel's frames into `left` and `right`.
    pub fn mix(&mut self, state: &SharedState, left: &mut Vec<i32>, right: &mut Vec<i32>)
        ensures
            final(left)@.len() == old(left)@.len(),
            final(right)@.len() == old(right)@.len(),
            final(self).voices@.len() >= old(self).voices@.len(),
            final(self).voices@.subrange(0, old(self).voices@.len() as int) == old(self).voices@,
            forall|i: int|
                old(self).voices@.len() <= i < final(self).voices@.len() ==> fresh_voice(
                    state@,
                    #[trigger] final(self).voices@[i],
                ),
            final(self).levels@.dom() == state@.faders.dom(),
            forall|t: int|
                0 <= t < final(left)@.len() ==> final(left)@[t] == crate::mixing::output_value(
                    state@,
                    final(self).levels@,
                    final(self).voices@,
                    Channel::Left,
                    t,
                ),
            forall|t: int|
                0 <= t < final(right)@.len() ==> final(right)@[t] == crate::mixing::output_value(
                    state@,
                    final(self).levels@,
                    final(self).voices@,
                    Channel::Right,
                    t,
                ),
    {
        self.drain_messages(state);
        self.refresh_levels(state);
        render_channel(state, &self.levels, &self.voices, Channel::Left, left);
        render_channel(state, &self.levels, &self.voices, Channel::Right, right);
    }

    /// Moves every voice on by `n` frames and takes out the finished ones.
    pub fn advance_voices(&mut self, n: usize)
        ensures
            final(self).voices@ == survivors(old(self).voices@, n),
            final(self).levels == old(self).levels,
            final(self).messages == old(self).messages,
    {
        self.spare.clear();
        let mut i: usize = 0;
        while i < self.voices.len()
            invariant
                i <= self.voices@.len(),
                self.voices == old(self).voices,
                self.levels == old(self).levels,
                self.messages == old(self).messages,
                self.spare@ == survivors(self.voices@.subrange(0, i as int), n),
            decreases self.voices.len() - i,
        {
            proof {
                let s = self.voices@.subrange(0, i + 1);
                assert(s.drop_last() =~= self.voices@.subrange(0, i as int));
            }
            let v = &self.voices[i];
            let mut voice = PlayingSample { sample: v.voice.sample.share(), position: v.voice.position };
            voice.advance(n);
            if !voice.finished() {
                self.spare.push(ActiveVoice { instrument: v.instrument, voice });
            }
            i = i + 1;
        }
        assert(self.voices@.subrange(0, self.voices@.len() as int) =~= self.voices@);
        std::mem::swap(&mut self.voices, &mut self.spare);
    }
}


/// How often `e` occurs in `s`.
pub open spec fn occurrences(s: Seq<FaderSourceType>, e: FaderSourceType) -> nat
    decreases s.len(),
{
    if s.len() == 0 {
        0
    } else {
        occurrences(s.drop_last(), e) + if s.last() == e {
            1nat
        } else {
            0nat
        }
    }
}

proof fn lemma_occurrences_contains(s: Seq<FaderSourceType>, e: FaderSourceType)
    ensures
        s.contains(e) <==> occurrences(s, e) > 0,
    decreases s.len(),
{
    if s.len() > 0 {
        lemma_occurrences_contains(s.drop_last(), e);
        if s.drop_last().contains(e) {
            let j = choose|j: int| 0 <= j < s.drop_last().len() && s.drop_last()[j] == e;
            assert(s[j] == e);
        }
        if s.contains(e) && s.last() != e {
            let j = choose|j: int| 0 <= j < s.len() && s[j] == e;
            assert(s.drop_last()[j] == e);
        }
    }
}

/// Adding the same route twice is adding it once, and leaves exactly one
/// such edge in a list without duplicates.
pub proof fn lemma_route_dedup(st: StateView, dst: usize, src: FaderSourceType)
    requires
        sources_of(st.sources, dst).no_duplicates(),
    ensures
        apply_mutation(
            apply_mutation(st, Mutation::AddSource { dst, src }),
            Mutation::AddSource { dst, src },
        ) == apply_mutation(st, Mutation::AddSource { dst, src }),
        occurrences(
            sources_of(apply_mutation(st, Mutation::AddSource { dst, src }).sources, dst),
            src,
        ) == 1,
{
    let s0 = sources_of(st.sources, dst);
    let s1 = with_source(s0, src);
    let st1 = apply_mutation(st, Mutation::AddSource { dst, src });
    assert(sources_of(st1.sources, dst) == s1);
    lemma_unique_at_most_once(s0, src);
    lemma_occurrences_contains(s0, src);
    if !s0.contains(src) {
        assert(s1.drop_last() =~= s0);
    }
    lemma_occurrences_contains(s1, src);
    if !s0.contains(src) {
        assert(s1.contains(src)) by {
            assert(s1[s0.len() as int] == src);
        }
    }
    assert(with_source(s1, src) == s1);
    assert(st1.sources.insert(dst, s1) =~= st1.sources);
}

/// Triggering an instrument that the snapshot does not hold starts no
/// voice, so nothing rendered changes.
pub proof fn lemma_unknown_trigger_is_silent(
    st: StateView,
    vs: Seq<ActiveVoice>,
    iid: usize,
    velocity: u8,
)
    requires
        !st.instruments.contains_key(iid),
    ensures
        triggered(st, vs, iid, velocity) == vs,
        forall|lv: Map<usize, Levels>, ch: Channel, t: int|
            crate::mixing::output_value(st, lv, triggered(st, vs, iid, velocity), ch, t)
                == crate::mixing::output_value(st, lv, vs, ch, t),
{
}

/// After a period's purge no remaining voice is finished, each is a voice
/// of before moved on by `n` frames, and purging again without moving on
/// changes nothing.
pub proof fn lemma_purge(vs: Seq<ActiveVoice>, n: usize)
    ensures
        forall|i: int|
            0 <= i < survivors(vs, n).len() ==> !(#[trigger] survivors(vs, n)[i]).voice.is_finished(),
        forall|i: int|
            0 <= i < survivors(vs, n).len() ==> exists|j: int|
                0 <= j < vs.len() && #[trigger] survivors(vs, n)[i] == advanced(vs[j], n),
        survivors(survivors(vs, n), 0) == survivors(vs, n),
    decreases vs.len(),
{
    if vs.len() > 0 {
        let rest = survivors(vs.drop_last(), n);
        lemma_purge(vs.drop_last(), n);
        let a = advanced(vs.last(), n);
        let sv = survivors(vs, n);
        assert forall|i: int| 0 <= i < sv.len() implies exists|j: int|
            0 <= j < vs.len() && #[trigger] sv[i] == advanced(vs[j], n) by {
            if i < rest.len() {
                assert(sv[i] == rest[i]);
                let j = choose|j: int|
                    0 <= j < vs.drop_last().len() && #[trigger] rest[i] == advanced(
                        vs.drop_last()[j],
                        n,
                    );
                assert(vs[j] == vs.drop_last()[j]);
            } else {
                assert(sv[i] == advanced(vs[vs.len() - 1], n));
            }
        }
        if !a.voice.is_finished() {
            assert(sv.drop_last() =~= rest);
            assert(advanced(a, 0) == a);
        }
    }
}


/// Every edge list of `st` holds each edge at most once.
pub open spec fn unique_sources(st: StateView) -> bool {
    forall|k: usize| #[trigger] st.sources.contains_key(k) ==> st.sources[k].no_duplicates()
}

pub proof fn lemma_without_excludes(s: Seq<FaderSourceType>, e: FaderSourceType, x: FaderSourceType)
    ensures
        without(s, e).contains(x) <==> (s.contains(x) && x != e),
    decreases s.len(),
{
    if s.len() > 0 {
        lemma_without_excludes(s.drop_last(), e, x);
        if s.drop_last().contains(x) {
            let j = choose|j: int| 0 <= j < s.drop_last().len() && s.drop_last()[j] == x;
            assert(s[j] == x);
        }
        if s.contains(x) {
            let j = choose|j: int| 0 <= j < s.len() && s[j] == x;
            if j < s.len() - 1 {
                assert(s.drop_last()[j] == x);
            }
        }
        if without(s.drop_last(), e).contains(x) && s.last() != e {
            let w = without(s.drop_last(), e);
            let j = choose|j: int| 0 <= j < w.len() && w[j] == x;
            assert(w.push(s.last())[j] == x);
        }
        if s.last() != e && s.last() == x {
            let w = without(s.drop_last(), e);
            assert(w.push(s.last())[w.len() as int] == x);
        }
    }
}

proof fn lemma_push_unique(s: Seq<FaderSourceType>, e: FaderSourceType)
    requires
        s.no_duplicates(),
        !s.contains(e),
    ensures
        s.push(e).no_duplicates(),
{
    let t = s.push(e);
    assert forall|i: int, j: int| 0 <= i < t.len() && 0 <= j < t.len() && i != j implies t[i]
        != t[j] by {
        if i == s.len() {
            assert(s[j] == t[j]);
        } else if j == s.len() {
            assert(s[i] == t[i]);
        } else {
            assert(s[i] == t[i] && s[j] == t[j]);
        }
    }
}

proof fn lemma_without_unique(s: Seq<FaderSourceType>, e: FaderSourceType)
    requires
        s.no_duplicates(),
    ensures
        without(s, e).no_duplicates(),
    decreases s.len(),
{
    if s.len() > 0 {
        let d = s.drop_last();
        assert(d.no_duplicates()) by {
            assert forall|i: int, j: int| 0 <= i < d.len() && 0 <= j < d.len() && i != j implies d[i]
                != d[j] by {
                assert(d[i] == s[i] && d[j] == s[j]);
            }
        }
        lemma_without_unique(d, e);
        if s.last() != e {
            assert(!d.contains(s.last())) by {
                if d.contains(s.last()) {
                    let j = choose|j: int| 0 <= j < d.len() && d[j] == s.last();
                    assert(s[j] == s[s.len() - 1]);
                }
            }
            lemma_without_excludes(d, e, s.last());
            lemma_push_unique(without(d, e), s.last());
        }
    }
}

proof fn lemma_strip_unique(m: Map<usize, Seq<FaderSourceType>>, e: FaderSourceType)
    requires
        forall|k: usize| #[trigger] m.contains_key(k) ==> m[k].no_duplicates(),
    ensures
        forall|k: usize| #[trigger]
            strip(m, e).contains_key(k) ==> strip(m, e)[k].no_duplicates(),
{
    assert forall|k: usize| #[trigger] strip(m, e).contains_key(k) implies strip(
        m,
        e,
    )[k].no_duplicates() by {
        lemma_without_unique(m[k], e);
    }
}

/// No batch of mutations puts an edge twice into an edge list.
pub proof fn lemma_batch_keeps_unique(st: StateView, ms: Seq<Mutation>)
    requires
        unique_sources(st),
    ensures
        unique_sources(apply_all(st, ms)),
    decreases ms.len(),
{
    if ms.len() > 0 {
        lemma_batch_keeps_unique(st, ms.drop_last());
        lemma_mutation_keeps_unique(apply_all(st, ms.drop_last()), ms.last());
    }
}

/// No mutation puts an edge twice into an edge list.
pub proof fn lemma_mutation_keeps_unique(st: StateView, m: Mutation)
    requires
        unique_sources(st),
    ensures
        unique_sources(apply_mutation(st, m)),
{
    let s2 = apply_mutation(st, m);
    match m {
        Mutation::RemoveInstrument { id } => {
            lemma_strip_unique(st.sources, FaderSourceType::InstrumentSrc(id));
        },
        Mutation::RemoveFader { id } => {
            lemma_strip_unique(st.sources.remove(id), FaderSourceType::FaderSrc(id));
        },
        Mutation::AddSource { dst, src } => {
            let s0 = sources_of(st.sources, dst);
            assert(s0.no_duplicates());
            if !s0.contains(src) {
                lemma_push_unique(s0, src);
            }
            assert forall|k: usize| #[trigger] s2.sources.contains_key(k) implies s2.sources[
                k
            ].no_duplicates() by {
                if k != dst {
                    assert(st.sources.contains_key(k));
                }
            }
        },
        Mutation::RemoveSource { dst, src } => {
            let s0 = sources_of(st.sources, dst);
            assert(s0.no_duplicates());
            lemma_without_unique(s0, src);
            assert forall|k: usize| #[trigger] s2.sources.contains_key(k) implies s2.sources[
                k
            ].no_duplicates() by {
                if k != dst {
                    assert(st.sources.contains_key(k));
                }
            }
        },
        _ => {},
    }
}

proof fn lemma_unique_at_most_once(s: Seq<FaderSourceType>, e: FaderSourceType)
    requires
        s.no_duplicates(),
    ensures
        occurrences(s, e) <= 1,
    decreases s.len(),
{
    if s.len() > 0 {
        let d = s.drop_last();
        assert(d.no_duplicates()) by {
            assert forall|i: int, j: int| 0 <= i < d.len() && 0 <= j < d.len() && i != j implies d[i]
                != d[j] by {
                assert(d[i] == s[i] && d[j] == s[j]);
            }
        }
        lemma_unique_at_most_once(d, e);
        if s.last() == e {
            lemma_occurrences_contains(d, e);
            if d.contains(e) {
                let j = choose|j: int| 0 <= j < d.len() && d[j] == e;
                assert(s[j] == s[s.len() - 1]);
            }
        }
    }
}

} // verus!
