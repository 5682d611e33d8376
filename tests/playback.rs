use voice_assistant::pcm::encode_pcm16;
use voice_assistant::playback::{AudioPlayback, PlaybackError, JITTER_BUFFER_FRAMES};

fn entry(samples: &[i16]) -> Vec<u8> {
    encode_pcm16(samples)
}

#[test]
fn starts_only_at_threshold() {
    let mut p = AudioPlayback::new(JITTER_BUFFER_FRAMES);
    for i in 0..4 {
        assert!(!p.queue_audio(&entry(&[i])));
        let (out, ended) = p.fill(3);
        assert_eq!(out, vec![0, 0, 0]);
        assert!(!ended);
    }
    assert_eq!(p.queued_frames(), 4);
    assert!(p.queue_audio(&entry(&[4])));
    assert_eq!(p.queued_frames(), 5);
    assert!(!p.is_playing());
}

#[test]
fn drains_in_fifo_order_across_entries() {
    let mut p = AudioPlayback::new(2);
    assert!(!p.queue_audio(&entry(&[1, 2, 3])));
    assert!(p.queue_audio(&entry(&[4, 5])));
    p.start(true).unwrap();
    let (out, ended) = p.fill(2);
    assert_eq!(out, vec![1, 2]);
    assert!(!ended);
    let (out, ended) = p.fill(2);
    assert_eq!(out, vec![3, 4]);
    assert!(!ended);
    assert_eq!(p.queued_frames(), 1);
    let (out, ended) = p.fill(4);
    assert_eq!(out, vec![5, 0, 0, 0]);
    assert!(ended);
    assert!(!p.is_playing());
}

#[test]
fn exactly_one_completion() {
    let mut p = AudioPlayback::new(1);
    assert!(p.queue_audio(&entry(&[7, 8])));
    p.start(true).unwrap();
    let mut ends = 0;
    for _ in 0..5 {
        let (_, ended) = p.fill(2);
        if ended {
            ends += 1;
        }
    }
    assert_eq!(ends, 1);
    assert!(p.is_completed());
}

#[test]
fn exhausted_queue_ends_on_next_callback() {
    let mut p = AudioPlayback::new(5);
    p.start(true).unwrap();
    let (out, ended) = p.fill(2);
    assert_eq!(out, vec![0, 0]);
    assert!(ended);
    let (_, ended) = p.fill(2);
    assert!(!ended);
}

#[test]
fn playback_double_start_is_rejected() {
    let mut p = AudioPlayback::new(1);
    p.queue_audio(&entry(&[1, 2, 3]));
    assert_eq!(p.start(true), Ok(()));
    assert_eq!(p.start(true), Err(PlaybackError::AlreadyActive));
    assert!(p.is_playing());
    assert_eq!(p.fill(1).0, vec![1]);
}

#[test]
fn playback_missing_device_is_reported() {
    let mut p = AudioPlayback::new(1);
    assert_eq!(p.start(false), Err(PlaybackError::DeviceError));
    assert!(!p.is_playing());
}

#[test]
fn stop_discards_unplayed_audio() {
    let mut p = AudioPlayback::new(1);
    p.queue_audio(&entry(&[1, 2, 3]));
    p.start(true).unwrap();
    p.stop();
    assert!(!p.is_playing());
    assert_eq!(p.queued_frames(), 0);
    assert_eq!(p.fill(2), (vec![0, 0], false));
}

#[test]
fn empty_and_odd_entries() {
    let mut p = AudioPlayback::new(3);
    p.queue_audio(&[]);
    p.queue_audio(&[9]);
    assert!(p.queue_audio(&[3, 0, 1]));
    p.start(true).unwrap();
    assert_eq!(p.fill(2), (vec![3, 0], true));
    assert_eq!(p.queued_frames(), 0);
}

#[test]
fn restart_after_completion() {
    let mut p = AudioPlayback::new(1);
    assert!(p.queue_audio(&entry(&[1])));
    p.start(true).unwrap();
    assert_eq!(p.fill(1), (vec![1], true));
    assert!(p.queue_audio(&entry(&[2])));
    p.start(true).unwrap();
    assert!(!p.is_completed());
    assert_eq!(p.fill(2), (vec![2, 0], true));
}
