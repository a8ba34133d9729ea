//! Resolution of the routing graph into per-frame output values.
//!
//! For one channel and one frame, a fader's value is the sum of what its
//! edges carry, scaled by its gain and by its pan weight for the channel.
//! An edge from a fader carries that fader's value; an edge from an
//! instrument carries the sum of its voices at that frame, which are silent
//! past the end of their data. Gains and pans are fractions of `UNITY`;
//! each scaling truncates toward zero, and intermediate values saturate at
//! the bounds of `i64`. Resolution stops at `MAX_DEPTH` nested faders, so a
//! routing cycle is silent past that depth instead of recursing forever.
use std::collections::HashMap;
use vstd::prelude::*;

use crate::fader::{CENTRE, UNITY};
use crate::processor::{sources_of, Channel, FaderSourceType, SharedState, StateView};
use crate::samples::PlayingSample;

verus! {

broadcast use vstd::std_specs::hash::group_hash_axioms;

/// The deepest chain of faders that is resolved.
pub const MAX_DEPTH: u32 = 64;

/// Gain and pan of a fader, as read for one render.
#[derive(PartialEq, Eq, Structural, Clone, Copy, Debug)]
pub struct Levels {
    pub gain: u32,
    pub pan: u32,
}

/// A playback voice of an instrument.
pub struct ActiveVoice {
    pub instrument: usize,
    pub voice: PlayingSample,
}

/// The levels of fader `f`; an unknown fader is silent and centred.
pub open spec fn levels_of(lv: Map<usize, Levels>, f: usize) -> Levels {
    if lv.contains_key(f) {
        lv[f]
    } else {
        Levels { gain: 0, pan: CENTRE }
    }
}

/// The share of a fader's output that goes to `ch`: the pan for the left
/// channel, its complement for the right one.
pub open spec fn pan_weight(pan: u32, ch: Channel) -> int {
    let p: int = if pan > UNITY {
        UNITY as int
    } else {
        pan as int
    };
    match ch {
        Channel::Left => p,
        Channel::Right => UNITY - p,
    }
}

/// `x * gain * weight`, with gain and weight fractions of `UNITY`,
/// truncated toward zero.
pub open spec fn scaled(x: int, gain: int, weight: int) -> int {
    let p = x * gain * weight;
    let d = UNITY as int * UNITY as int;
    if p >= 0 {
        p / d
    } else {
        -((-p) / d)
    }
}

pub open spec fn clamp64(x: int) -> int {
    if x > i64::MAX {
        i64::MAX as int
    } else if x < i64::MIN {
        i64::MIN as int
    } else {
        x
    }
}

pub open spec fn clamp32(x: int) -> int {
    if x > i32::MAX {
        i32::MAX as int
    } else if x < i32::MIN {
        i32::MIN as int
    } else {
        x
    }
}

/// Sum of the values of instrument `iid`'s voices at frame `t`.
pub open spec fn instrument_mix(vs: Seq<ActiveVoice>, iid: usize, t: int) -> int
    decreases vs.len(),
{
    if vs.len() == 0 {
        0
    } else {
        instrument_mix(vs.drop_last(), iid, t) + if vs.last().instrument == iid {
            vs.last().voice.value_at(t)
        } else {
            0
        }
    }
}

/// The value of fader `f` on `ch` at frame `t`, resolving at most `depth`
/// nested faders.
pub open spec fn fader_value(
    st: StateView,
    lv: Map<usize, Levels>,
    vs: Seq<ActiveVoice>,
    f: usize,
    ch: Channel,
    t: int,
    depth: nat,
) -> int
    decreases depth, 0nat,
{
    if depth == 0 {
        0
    } else {
        let l = levels_of(lv, f);
        let sum = edges_sum(st, lv, vs, sources_of(st.sources, f), ch, t, (depth - 1) as nat);
        clamp64(scaled(clamp64(sum), l.gain as int, pan_weight(l.pan, ch)))
    }
}

/// What edge `e` carries on `ch` at frame `t`.
pub open spec fn edge_value(
    st: StateView,
    lv: Map<usize, Levels>,
    vs: Seq<ActiveVoice>,
    e: FaderSourceType,
    ch: Channel,
    t: int,
    depth: nat,
) -> int
    decreases depth, 1nat,
{
    match e {
        FaderSourceType::FaderSrc(g) => fader_value(st, lv, vs, g, ch, t, depth),
        FaderSourceType::InstrumentSrc(i) => clamp64(instrument_mix(vs, i, t)),
    }
}

/// The sum of what the edges `es` carry.
pub open spec fn edges_sum(
    st: StateView,
    lv: Map<usize, Levels>,
    vs: Seq<ActiveVoice>,
    es: Seq<FaderSourceType>,
    ch: Channel,
    t: int,
    depth: nat,
) -> int
    decreases depth, 2nat + es.len(),
{
    if es.len() == 0 {
        0
    } else {
        edges_sum(st, lv, vs, es.drop_last(), ch, t, depth) + edge_value(
            st,
            lv,
            vs,
            es.last(),
            ch,
            t,
            depth,
        )
    }
}

/// The value written to `ch` at frame `t`: the master fader's value,
/// saturated to `i32`.
pub open spec fn output_value(
    st: StateView,
    lv: Map<usize, Levels>,
    vs: Seq<ActiveVoice>,
    ch: Channel,
    t: int,
) -> int {
    clamp32(fader_value(st, lv, vs, st.master, ch, t, MAX_DEPTH as nat))
}

proof fn lemma_instrument_mix_bound(vs: Seq<ActiveVoice>, iid: usize, t: int)
    ensures
        -(vs.len() * 0x8000_0000) <= instrument_mix(vs, iid, t) <= vs.len() * 0x8000_0000,
    decreases vs.len(),
{
    if vs.len() > 0 {
        lemma_instrument_mix_bound(vs.drop_last(), iid, t);
    }
}

proof fn lemma_edges_sum_bound(
    st: StateView,
    lv: Map<usize, Levels>,
    vs: Seq<ActiveVoice>,
    es: Seq<FaderSourceType>,
    ch: Channel,
    t: int,
    depth: nat,
)
    ensures
        -(es.len() * 0x8000_0000_0000_0000) <= edges_sum(st, lv, vs, es, ch, t, depth) <= es.len()
            * 0x8000_0000_0000_0000,
    decreases es.len(),
{
    if es.len() > 0 {
        lemma_edges_sum_bound(st, lv, vs, es.drop_last(), ch, t, depth);
        lemma_edge_value_bound(st, lv, vs, es.last(), ch, t, depth);
    }
}

proof fn lemma_edge_value_bound(
    st: StateView,
    lv: Map<usize, Levels>,
    vs: Seq<ActiveVoice>,
    e: FaderSourceType,
    ch: Channel,
    t: int,
    depth: nat,
)
    ensures
        i64::MIN <= edge_value(st, lv, vs, e, ch, t, depth) <= i64::MAX,
{
    match e {
        FaderSourceType::FaderSrc(g) => {
            if depth > 0 {
                let l = levels_of(lv, g);
                let sum = edges_sum(st, lv, vs, sources_of(st.sources, g), ch, t, (depth - 1) as nat);
                assert(fader_value(st, lv, vs, g, ch, t, depth) == clamp64(
                    scaled(clamp64(sum), l.gain as int, pan_weight(l.pan, ch)),
                ));
            }
        },
        FaderSourceType::InstrumentSrc(i) => {},
    }
}

/// The sum of instrument `iid`'s voices at frame `t`, saturated to `i64`.
fn instrument_sample(vs: &Vec<ActiveVoice>, iid: usize, t: usize) -> (r: i64)
    ensures
        r == clamp64(instrument_mix(vs@, iid, t as int)),
{
    let mut acc: i128 = 0;
    let mut i: usize = 0;
    while i < vs.len()
        invariant
            i <= vs@.len(),
            acc == instrument_mix(vs@.subrange(0, i as int), iid, t as int),
        decreases vs.len() - i,
    {
        proof {
            let s = vs@.subrange(0, i + 1);
            assert(s.drop_last() =~= vs@.subrange(0, i as int));
            lemma_instrument_mix_bound(s, iid, t as int);
        }
        if vs[i].instrument == iid {
            acc = acc + vs[i].voice.value(t) as i128;
        }
        i = i + 1;
    }
    assert(vs@.subrange(0, vs@.len() as int) =~= vs@);
    saturate64(acc)
}

fn saturate64(x: i128) -> (r: i64)
    ensures
        r == clamp64(x as int),
{
    if x > i64::MAX as i128 {
        i64::MAX
    } else if x < i64::MIN as i128 {
        i64::MIN
    } else {
        x as i64
    }
}

/// `x * gain * weight` over `UNITY * UNITY`, truncated toward zero.
fn scale(x: i64, gain: u32, weight: u32) -> (r: i64)
    requires
        weight <= UNITY,
    ensures
        r == clamp64(scaled(x as int, gain as int, weight as int)),
{
    let d: u128 = (UNITY as u128) * (UNITY as u128);
    assert(gain as int * weight as int <= 0xFFFF_FFFF * 0x1_0000) by (nonlinear_arith)
        requires
            0 <= gain <= 0xFFFF_FFFF,
            0 <= weight <= 0x1_0000,
    ;
    let m: u128 = (gain as u128) * (weight as u128);
    if x >= 0 {
        let ax: u128 = x as u128;
        assert(ax * m <= 0x8000_0000_0000_0000 * (0xFFFF_FFFF * 0x1_0000)) by (nonlinear_arith)
            requires
                ax <= 0x8000_0000_0000_0000,
                m <= 0xFFFF_FFFF * 0x1_0000,
        ;
        let q: u128 = (ax * m) / d;
        assert(x as int * gain as int * weight as int == ax * m) by (nonlinear_arith)
            requires
                ax == x,
                m == gain * weight,
        ;
        assert(q <= ax * m);
        if q > i64::MAX as u128 {
            i64::MAX
        } else {
            q as i64
        }
    } else {
        let ax: u128 = (-(x as i128)) as u128;
        assert(ax * m <= 0x8000_0000_0000_0000 * (0xFFFF_FFFF * 0x1_0000)) by (nonlinear_arith)
            requires
                ax <= 0x8000_0000_0000_0000,
                m <= 0xFFFF_FFFF * 0x1_0000,
        ;
        let q: u128 = (ax * m) / d;
        assert(-(x as int * gain as int * weight as int) == ax * m) by (nonlinear_arith)
            requires
                ax == -x,
                m == gain * weight,
        ;
        assert(q <= ax * m);
        if q > 0x8000_0000_0000_0000u128 {
            i64::MIN
        } else {
            (-(q as i128)) as i64
        }
    }
}

/// The pan weight of `pan` for `ch`.
fn weight(pan: u32, ch: Channel) -> (r: u32)
    ensures
        r == pan_weight(pan, ch),
        r <= UNITY,
{
    let p = if pan > UNITY {
        UNITY
    } else {
        pan
    };
    match ch {
        Channel::Left => p,
        Channel::Right => UNITY - p,
    }
}

/// The value of fader `f` on `ch` at frame `t`.
pub fn fader_sample(
    st: &SharedState,
    lv: &HashMap<usize, Levels>,
    vs: &Vec<ActiveVoice>,
    f: usize,
    ch: Channel,
    t: usize,
    depth: u32,
) -> (r: i64)
    ensures
        r == fader_value(st@, lv@, vs@, f, ch, t as int, depth as nat),
    decreases depth,
{
    if depth == 0 {
        return 0;
    }
    let l = match lv.get(&f) {
        Some(l) => *l,
        None => Levels { gain: 0, pan: CENTRE },
    };
    let mut acc: i128 = 0;
    let ghost es = sources_of(st@.sources, f);
    let ghost d = (depth - 1) as nat;
    match st.fsrc_map.get(&f) {
        None => {
            assert(es.len() == 0);
        },
        Some(v) => {
            assert(v@ == es);
            let mut i: usize = 0;
            while i < v.len()
                invariant
                    i <= v@.len(),
                    v@ == es,
                    depth > 0,
                    d == depth - 1,
                    acc == edges_sum(st@, lv@, vs@, es.subrange(0, i as int), ch, t as int, d),
                decreases v.len() - i,
            {
                proof {
                    let s = es.subrange(0, i + 1);
                    assert(s.drop_last() =~= es.subrange(0, i as int));
                    lemma_edges_sum_bound(st@, lv@, vs@, es.subrange(0, i as int), ch, t as int, d);
                    lemma_edge_value_bound(st@, lv@, vs@, es[i as int], ch, t as int, d);
                    assert(s.last() == es[i as int]);
                }
                let e = match v[i] {
                    FaderSourceType::FaderSrc(g) => fader_sample(st, lv, vs, g, ch, t, depth - 1),
                    FaderSourceType::InstrumentSrc(iid) => instrument_sample(vs, iid, t),
                };
                acc = acc + e as i128;
                i = i + 1;
            }
            assert(es.subrange(0, es.len() as int) =~= es);
        },
    }
    let sum = saturate64(acc);
    scale(sum, l.gain, weight(l.pan, ch))
}

/// Writes the value of every frame of `ch` into `out`.
pub fn render_channel(
    st: &SharedState,
    lv: &HashMap<usize, Levels>,
    vs: &Vec<ActiveVoice>,
    ch: Channel,
    out: &mut Vec<i32>,
)
    ensures
        final(out)@.len() == old(out)@.len(),
        forall|t: int|
            0 <= t < final(out)@.len() ==> final(out)@[t] == output_value(st@, lv@, vs@, ch, t),
{
    let master = st.master.tcid;
    let mut t: usize = 0;
    while t < out.len()
        invariant
            t <= out@.len(),
            out@.len() == old(out)@.len(),
            master == st@.master,
            forall|j: int| 0 <= j < t ==> out@[j] == output_value(st@, lv@, vs@, ch, j),
        decreases out.len() - t,
    {
        let v = fader_sample(st, lv, vs, master, ch, t, MAX_DEPTH);
        let s: i32 = if v > i32::MAX as i64 {
            i32::MAX
        } else if v < i32::MIN as i64 {
            i32::MIN
        } else {
            v as i32
        };
        out[t] = s;
        t = t + 1;
    }
}


/// A fader whose one edge comes from fader `g` carries `g`'s value scaled
/// by its own gain and pan weight: along a chain of faders the gains
/// multiply, up to one truncation per fader.
pub proof fn lemma_chain_gain(
    st: StateView,
    lv: Map<usize, Levels>,
    vs: Seq<ActiveVoice>,
    f: usize,
    g: usize,
    ch: Channel,
    t: int,
    depth: nat,
)
    requires
        sources_of(st.sources, f) == seq![FaderSourceType::FaderSrc(g)],
    ensures
        fader_value(st, lv, vs, f, ch, t, depth + 1) == clamp64(
            scaled(
                fader_value(st, lv, vs, g, ch, t, depth),
                levels_of(lv, f).gain as int,
                pan_weight(levels_of(lv, f).pan, ch),
            ),
        ),
{
    let es = sources_of(st.sources, f);
    assert(es.drop_last() =~= Seq::<FaderSourceType>::empty());
    assert(es.last() == FaderSourceType::FaderSrc(g));
    assert(edges_sum(st, lv, vs, es.drop_last(), ch, t, depth) == 0);
    assert(edge_value(st, lv, vs, es.last(), ch, t, depth) == fader_value(st, lv, vs, g, ch, t, depth));
    assert(edges_sum(st, lv, vs, es, ch, t, depth) == fader_value(st, lv, vs, g, ch, t, depth));
}

/// A fader whose one edge comes from instrument `i` carries the sum of
/// `i`'s voices scaled by its own gain and pan weight.
pub proof fn lemma_leaf_gain(
    st: StateView,
    lv: Map<usize, Levels>,
    vs: Seq<ActiveVoice>,
    f: usize,
    i: usize,
    ch: Channel,
    t: int,
    depth: nat,
)
    requires
        sources_of(st.sources, f) == seq![FaderSourceType::InstrumentSrc(i)],
    ensures
        fader_value(st, lv, vs, f, ch, t, depth + 1) == clamp64(
            scaled(
                clamp64(instrument_mix(vs, i, t)),
                levels_of(lv, f).gain as int,
                pan_weight(levels_of(lv, f).pan, ch),
            ),
        ),
{
    let es = sources_of(st.sources, f);
    assert(es.drop_last() =~= Seq::<FaderSourceType>::empty());
}


/// A fader's value on `ch` computed from what its edges carry.
pub open spec fn through(lv: Map<usize, Levels>, f: usize, ch: Channel, x: int) -> int {
    clamp64(scaled(x, levels_of(lv, f).gain as int, pan_weight(levels_of(lv, f).pan, ch)))
}

/// Gain composition along a chain master, bus, instrument fader,
/// instrument: the output is the voices' sum scaled by each fader in turn,
/// and where every fader on the chain is centred both channels carry the
/// same value.
pub proof fn lemma_gain_composition(
    st: StateView,
    lv: Map<usize, Levels>,
    vs: Seq<ActiveVoice>,
    bus: usize,
    f: usize,
    i: usize,
    t: int,
)
    requires
        sources_of(st.sources, st.master) == seq![FaderSourceType::FaderSrc(bus)],
        sources_of(st.sources, bus) == seq![FaderSourceType::FaderSrc(f)],
        sources_of(st.sources, f) == seq![FaderSourceType::InstrumentSrc(i)],
    ensures
        forall|ch: Channel|
            #[trigger] output_value(st, lv, vs, ch, t) == clamp32(
                through(
                    lv,
                    st.master,
                    ch,
                    through(lv, bus, ch, through(lv, f, ch, clamp64(instrument_mix(vs, i, t)))),
                ),
            ),
        (levels_of(lv, st.master).pan == CENTRE && levels_of(lv, bus).pan == CENTRE && levels_of(
            lv,
            f,
        ).pan == CENTRE) ==> output_value(st, lv, vs, Channel::Left, t) == output_value(
            st,
            lv,
            vs,
            Channel::Right,
            t,
        ),
{
    assert forall|ch: Channel|
        #[trigger] output_value(st, lv, vs, ch, t) == clamp32(
            through(
                lv,
                st.master,
                ch,
                through(lv, bus, ch, through(lv, f, ch, clamp64(instrument_mix(vs, i, t)))),
            ),
        ) by {
        lemma_leaf_gain(st, lv, vs, f, i, ch, t, 61);
        lemma_chain_gain(st, lv, vs, bus, f, ch, t, 62);
        lemma_chain_gain(st, lv, vs, st.master, bus, ch, t, 63);
    }
}

} // verus!
