//! The verified core of a background audio-player daemon.
//!
//! The library covers the playback pipeline: frame-addressed PCM buffers
//! over planar and interleaved storage under one iteration contract
//! ([`buf`]), a verified copy/convert pass between any two of them ([`io`]),
//! a decode-to-PCM sound whose demuxer and decoder sit behind trusted
//! wrappers ([`sound`]), and the playlist with its current-track cursor,
//! repeat-mode policy and request semantics ([`factory`]). The platform
//! pieces around the core — the audio device and its stream, the socket
//! transport, path handling — belong to the program that embeds it.

pub mod buf;
pub mod engine;
pub mod factory;
pub mod io;
pub mod request;
pub mod sound;

pub use factory::Factory;
pub use request::Request;
pub use sound::Sound;
