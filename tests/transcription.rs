use voice_assistant::conversation::SessionStatus;
use voice_assistant::transcription::{InboundAction, InboundMessage, TranscriptionSession};

#[test]
fn audio_goes_out_in_whole_frames_and_the_tail_on_stop() {
    let mut s = TranscriptionSession::new();
    let data: Vec<u8> = (0..1000u32).map(|i| (i % 251) as u8).collect();
    let frames = s.on_audio(&data[..700]);
    assert_eq!(frames.len(), 1);
    assert_eq!(frames[0], data[..640].to_vec());
    assert!(s.on_audio(&data[700..]).is_empty());
    let last = s.on_stop().expect("tail");
    assert_eq!(last, data[640..].to_vec());
    assert!(!s.is_open());
    assert!(s.on_audio(&data).is_empty());
}

#[test]
fn final_transcript_requests_finalizing() {
    let mut s = TranscriptionSession::new();
    assert_eq!(
        s.on_inbound(&InboundMessage::Transcript { has_final: true }),
        InboundAction::Publish { request: Some(SessionStatus::FinalizingAsr) }
    );
    assert_eq!(
        s.on_inbound(&InboundMessage::Transcript { has_final: false }),
        InboundAction::Publish { request: None }
    );
    assert_eq!(s.on_inbound(&InboundMessage::Other), InboundAction::Ignore);
    assert!(s.is_open());
}

#[test]
fn close_and_failure_terminate() {
    let mut s = TranscriptionSession::new();
    assert_eq!(s.on_inbound(&InboundMessage::Close), InboundAction::Terminate);
    assert!(!s.is_open());
    let mut s = TranscriptionSession::new();
    assert_eq!(s.on_inbound(&InboundMessage::Failure), InboundAction::Terminate);
    assert!(s.on_stop().is_none());
}

#[test]
fn stop_with_nothing_buffered() {
    let mut s = TranscriptionSession::new();
    assert_eq!(s.on_audio(&[0u8; 640]).len(), 1);
    assert!(s.on_stop().is_none());
}
