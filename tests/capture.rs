use voice_assistant::capture::{AudioCapture, CaptureError, VadEvent};

#[test]
fn capture_double_start_is_rejected() {
    let mut c = AudioCapture::new();
    assert!(!c.is_recording());
    assert_eq!(c.start(true), Ok(()));
    assert_eq!(c.start(true), Err(CaptureError::AlreadyActive));
    assert!(c.is_recording());
    c.stop();
    assert!(!c.is_recording());
    assert_eq!(c.start(true), Ok(()));
}

#[test]
fn capture_missing_device_is_reported() {
    let mut c = AudioCapture::new();
    assert_eq!(c.start(false), Err(CaptureError::DeviceError));
    assert!(!c.is_recording());
}

#[test]
fn input_is_encoded_only_while_recording() {
    let mut c = AudioCapture::new();
    assert!(c.on_input(&[1, 2]).is_none());
    c.start(true).unwrap();
    assert_eq!(c.on_input(&[1, -2]), Some(vec![1, 0, 254, 255]));
    c.stop();
    assert!(c.on_input(&[1]).is_none());
}

#[test]
fn vad_statuses() {
    assert_eq!(VadEvent::speech_start().status, "speech_start");
    assert_eq!(VadEvent::speech_end().status, "speech_end");
}
