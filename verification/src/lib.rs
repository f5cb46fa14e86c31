//! Routing core of an audio bridge: racks of channels, connections between
//! them, the routing decisions of the audio engine, profile slots, the
//! recorder's state, the network packet format and the sample rings that
//! sit between the audio callbacks and the engine.
//!
//! Samples are carried as the IEEE-754 bit patterns of `f32` values
//! (`u32`); the arithmetic on them is done by the caller.

pub mod connection;
pub mod rack;
pub mod network;
pub mod profile;
pub mod recorder;
pub mod resampler;
pub mod engine;
pub mod control;
pub mod sample_ring;
pub mod devices;
