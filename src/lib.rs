//! Core of a real-time voice-conversation pipeline: response chunking,
//! audio framing and PCM coding, capture and playback sessions, and the
//! conversation state machine.

pub mod chunker;
pub mod pcm;
pub mod framer;
pub mod conversation;
pub mod capture;
pub mod playback;
pub mod transcription;
pub mod frames;
