//! The capture session: its active flag and the encoding of captured buffers.

use vstd::prelude::*;
use crate::pcm::{encode_pcm16, is_encoding};

verus! {

pub const SAMPLE_RATE: u32 = 16000;

pub const CHANNELS: u16 = 1;

/// Voice-activity status published to the host (`speech_start`, `speech_end`).
pub struct VadEvent {
    pub status: String,
}

impl VadEvent {
    pub fn speech_start() -> (r: Self)
        ensures
            r.status@ == "speech_start"@,
    {
        VadEvent { status: String::from_str("speech_start") }
    }

    pub fn speech_end() -> (r: Self)
        ensures
            r.status@ == "speech_end"@,
    {
        VadEvent { status: String::from_str("speech_end") }
    }
}

#[derive(Clone, Copy, PartialEq, Eq, Debug, Structural)]
pub enum CaptureError {
    /// A capture session is already running.
    AlreadyActive,
    /// No usable input device, or its configuration was rejected.
    DeviceError,
}

/// One capture session at a time: whether it is recording.
pub struct AudioCapture {
    recording: bool,
}

impl AudioCapture {
    pub closed spec fn recording_spec(&self) -> bool {
        self.recording
    }

    pub fn new() -> (r: Self)
        ensures
            !r.recording_spec(),
    {
        AudioCapture { recording: false }
    }

    pub fn is_recording(&self) -> (r: bool)
        ensures
            r == self.recording_spec(),
    {
        self.recording
    }

    /// Starts recording once the input device is open (`device_ready`).
    /// A running session is left untouched and reported as `AlreadyActive`.
    pub fn start(&mut self, device_ready: bool) -> (r: Result<(), CaptureError>)
        ensures
            old(self).recording_spec() ==> r == Err::<(), CaptureError>(CaptureError::AlreadyActive)
                && final(self).recording_spec(),
            !old(self).recording_spec() && !device_ready ==> r == Err::<(), CaptureError>(
                CaptureError::DeviceError,
            ) && !final(self).recording_spec(),
            !old(self).recording_spec() && device_ready ==> r is Ok && final(self).recording_spec(),
    {
        if self.recording {
            Err(CaptureError::AlreadyActive)
        } else if !device_ready {
            Err(CaptureError::DeviceError)
        } else {
            self.recording = true;
            Ok(())
        }
    }

    /// Stops recording: later device buffers are ignored.
    pub fn stop(&mut self)
        ensures
            !final(self).recording_spec(),
    {
        self.recording = false;
    }

    /// One device buffer: its PCM bytes while recording, nothing otherwise.
    pub fn on_input(&self, samples: &[i16]) -> (r: Option<Vec<u8>>)
        requires
            2 * samples@.len() <= usize::MAX,
        ensures
            !self.recording_spec() ==> r is None,
            self.recording_spec() ==> r is Some && is_encoding(samples@, r->Some_0@),
    {
        if self.recording {
            Some(encode_pcm16(samples))
        } else {
            None
        }
    }
}

} // verus!
