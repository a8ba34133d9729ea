//! Faders: named gain and pan controls.
//!
//! Gain and pan are fixed-point fractions of `UNITY`. Each is an atomic
//! scalar of its own, so the control thread can set it while the audio
//! thread reads it, without a lock.
use std::sync::atomic::AtomicU32;
use std::sync::atomic::Ordering::Relaxed;
use vstd::prelude::*;

verus! {

/// The fixed-point value of 1.0 for gains and pans.
pub const UNITY: u32 = 65536;

/// The pan of a centred fader, and of one that cannot be found.
pub const CENTRE: u32 = 32768;

/// A gain and pan control.
pub struct Fader {
    pub name: String,
    pub gain: AtomicU32,
    pub pan: AtomicU32,
}

impl Fader {
    /// A centred fader whose gain is the fixed-point value `v`, limited to
    /// `UNITY`.
    pub fn initu32(name: &str, v: u32) -> (r: Fader)
        ensures
            r.name@ == name@,
    {
        let g = if v > UNITY {
            UNITY
        } else {
            v
        };
        Fader { name: name.to_owned(), gain: AtomicU32::new(g), pan: AtomicU32::new(CENTRE) }
    }

    /// The current gain, at most `UNITY`; the control thread may change it
    /// at any time.
    pub fn get_gain(&self) -> (r: u32)
        ensures
            r <= UNITY,
    {
        let g = self.gain.load(Relaxed);
        if g > UNITY {
            UNITY
        } else {
            g
        }
    }

    /// Sets the gain, limited to `UNITY` (1.0).
    pub fn set_gain(&self, gain: u32) {
        let g = if gain > UNITY {
            UNITY
        } else {
            gain
        };
        self.gain.store(g, Relaxed);
    }

    /// The current pan, at most `UNITY`; the control thread may change it at
    /// any time.
    pub fn get_panning(&self) -> (r: u32)
        ensures
            r <= UNITY,
    {
        let p = self.pan.load(Relaxed);
        if p > UNITY {
            UNITY
        } else {
            p
        }
    }

    /// Sets the pan, limited to `UNITY` (fully to the left channel).
    pub fn set_panning(&self, pan: u32) {
        let p = if pan > UNITY {
            UNITY
        } else {
            pan
        };
        self.pan.store(p, Relaxed);
    }
}

/// Names a fader by its id.
#[derive(PartialEq, Eq, Structural, Debug)]
pub struct FaderRef {
    pub tcid: usize,
}

impl FaderRef {
    pub fn clone(&self) -> (r: FaderRef)
        ensures
            r == *self,
    {
        FaderRef { tcid: self.tcid }
    }
}

} // verus!
