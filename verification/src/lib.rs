//! A real-time bridge between a MIDI input stream and a chunked audio
//! render loop.
//!
//! Raw MIDI bytes are decoded into messages ([`midi`]), messages are turned
//! into timestamped engine commands ([`translate`], [`command`]), commands
//! travel through a bounded first-in first-out channel ([`channel`]), and the
//! render loop ([`render`]) drains that channel before every chunk it asks
//! the synthesis engine for, advancing its own sample clock ([`clock`]) by a
//! fixed step per chunk.
pub mod channel;
pub mod clock;
pub mod command;
pub mod midi;
pub mod render;
pub mod translate;
