//! Decisions of the streaming-recognition session: framing outgoing audio,
//! reacting to inbound messages, and the final flush on stop.

use vstd::prelude::*;
use crate::conversation::SessionStatus;
use crate::framer::{AudioFramer, AUDIO_FRAME_SIZE, frame_bytes};

verus! {

/// An inbound message of the recognition service, as the network layer
/// classified it.
pub enum InboundMessage {
    /// A transcript; `has_final` when it carries a final text.
    Transcript { has_final: bool },
    /// A close frame from the service.
    Close,
    /// A transport error or a message that did not decode.
    Failure,
    /// Anything else (pings, binary frames).
    Other,
}

/// What the network layer does about an inbound message.
#[derive(Clone, Copy, PartialEq, Eq, Debug, Structural)]
pub enum InboundAction {
    /// Publish the transcript; `request` is the state transition to ask for.
    Publish { request: Option<SessionStatus> },
    /// End the session.
    Terminate,
    /// Nothing to do.
    Ignore,
}

/// One recognition session: the framer for outgoing audio and whether the
/// stream is still open.
pub struct TranscriptionSession {
    framer: AudioFramer,
    open: bool,
}

impl TranscriptionSession {
    pub closed spec fn buffered(&self) -> Seq<u8> {
        self.framer.buffered()
    }

    pub closed spec fn open_spec(&self) -> bool {
        self.open
    }

    pub closed spec fn wf(&self) -> bool {
        self.framer.wf()
    }

    /// A session on a stream that has just connected.
    pub fn new() -> (r: Self)
        ensures
            r.wf(),
            r.open_spec(),
            r.buffered() == Seq::<u8>::empty(),
    {
        TranscriptionSession { framer: AudioFramer::new(), open: true }
    }

    pub fn is_open(&self) -> (r: bool)
        ensures
            r == self.open_spec(),
    {
        self.open
    }

    /// Captured audio bytes: every whole frame now complete, to be sent in
    /// order as binary messages. A closed session sends nothing.
    pub fn on_audio(&mut self, bytes: &[u8]) -> (frames: Vec<Vec<u8>>)
        requires
            old(self).wf(),
        ensures
            final(self).wf(),
            final(self).open_spec() == old(self).open_spec(),
            forall|i: int| 0 <= i < frames@.len() ==> (#[trigger] frames@[i])@.len() == AUDIO_FRAME_SIZE,
            old(self).open_spec() ==> old(self).buffered() + bytes@ == frame_bytes(frames@).flatten()
                + final(self).buffered(),
            !old(self).open_spec() ==> frames@.len() == 0 && final(self).buffered()
                == old(self).buffered(),
    {
        if self.open {
            self.framer.push(bytes)
        } else {
            Vec::new()
        }
    }

    /// An inbound message: transcripts are published, a final one also
    /// asks for `FinalizingAsr`; a close or a failure ends the session.
    pub fn on_inbound(&mut self, msg: &InboundMessage) -> (r: InboundAction)
        requires
            old(self).wf(),
        ensures
            final(self).wf(),
            final(self).buffered() == old(self).buffered(),
            match msg {
                InboundMessage::Transcript { has_final } => {
                    &&& final(self).open_spec() == old(self).open_spec()
                    &&& *has_final ==> r == InboundAction::Publish {
                        request: Some(SessionStatus::FinalizingAsr),
                    }
                    &&& !*has_final ==> r == InboundAction::Publish { request: None }
                },
                InboundMessage::Close | InboundMessage::Failure => {
                    &&& r == InboundAction::Terminate
                    &&& !final(self).open_spec()
                },
                InboundMessage::Other => {
                    &&& r == InboundAction::Ignore
                    &&& final(self).open_spec() == old(self).open_spec()
                },
            },
    {
        match msg {
            InboundMessage::Transcript { has_final } => {
                if *has_final {
                    InboundAction::Publish { request: Some(SessionStatus::FinalizingAsr) }
                } else {
                    InboundAction::Publish { request: None }
                }
            },
            InboundMessage::Close | InboundMessage::Failure => {
                self.open = false;
                InboundAction::Terminate
            },
            InboundMessage::Other => InboundAction::Ignore,
        }
    }

    /// A local stop: the partial frame still buffered, if any, to be sent
    /// as a last short binary message before the stream is closed.
    pub fn on_stop(&mut self) -> (last: Option<Vec<u8>>)
        requires
            old(self).wf(),
        ensures
            final(self).wf(),
            !final(self).open_spec(),
            final(self).buffered() == Seq::<u8>::empty(),
            old(self).open_spec() && old(self).buffered().len() > 0 ==> last is Some
                && last->Some_0@ == old(self).buffered(),
            !old(self).open_spec() || old(self).buffered().len() == 0 ==> last is None,
    {
        let rest = self.framer.flush();
        let was_open = self.open;
        self.open = false;
        if was_open {
            rest
        } else {
            None
        }
    }
}

} // verus!
