//! Core of a queue-driven audio player.
//!
//! The library owns everything that can be reasoned about without touching a
//! device or the disk: the message protocol between the control thread and the
//! realtime audio thread, the engine-side playback state machine and render
//! loop, the control-side track advancement, the bounded queues that carry the
//! messages, and the directory walk that builds the initial queue.
//!
//! Disk decoding and audio output are reached through the [`decoder::StreamingDecoder`]
//! interface and through the sample scalar in [`sample::Sample`]; a host wires
//! those to its decoder and output device and drives [`audio::DecomposerAudioDaemont::process`]
//! from its output callback.

pub mod audio;
pub mod coordinator;
pub mod decoder;
pub mod model;
pub mod queue;
pub mod sample;
pub mod util;
