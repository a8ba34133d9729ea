//! A real-time sample-playback and mixing engine.
//!
//! The library holds the verified logic: immutable samples and playback
//! voices, instruments with velocity layers, faders, the routing graph and
//! its per-frame resolution, and the double-buffered publication of the
//! mixing topology between a control thread and the real-time audio thread.
pub mod control;
pub mod fader;
pub mod instrument;
pub mod mixing;
pub mod processor;
pub mod publish;
pub mod samples;
