use voice_assistant::framer::{frame_stream, AudioFramer, AUDIO_FRAME_SIZE};

fn bytes(n: usize, seed: u8) -> Vec<u8> {
    (0..n).map(|i| (i as u8).wrapping_mul(7).wrapping_add(seed)).collect()
}

#[test]
fn frame_size_is_twenty_ms() {
    assert_eq!(AUDIO_FRAME_SIZE, 640);
}

#[test]
fn partial_tail_is_carried_over() {
    let mut f = AudioFramer::new();
    assert!(f.push(&bytes(600, 1)).is_empty());
    assert_eq!(f.buffered_len(), 600);
    let frames = f.push(&bytes(100, 2));
    assert_eq!(frames.len(), 1);
    assert_eq!(frames[0].len(), 640);
    assert_eq!(f.buffered_len(), 60);
    let mut expected = bytes(600, 1);
    expected.extend(bytes(40, 2));
    assert_eq!(frames[0], expected);
}

#[test]
fn several_frames_from_one_push() {
    let mut f = AudioFramer::new();
    let frames = f.push(&bytes(1300, 3));
    assert_eq!(frames.len(), 2);
    assert_eq!(f.buffered_len(), 20);
    let tail = f.flush().expect("tail");
    assert_eq!(tail.len(), 20);
    assert!(f.flush().is_none());
}

#[test]
fn flush_of_empty_framer() {
    let mut f = AudioFramer::new();
    assert!(f.flush().is_none());
    assert!(f.push(&bytes(640, 0)).len() == 1);
    assert!(f.flush().is_none());
}

#[test]
fn stream_frames_concatenate_to_input() {
    let captured = vec![bytes(300, 1), bytes(500, 2), bytes(0, 3), bytes(900, 4), bytes(13, 5)];
    let frames = frame_stream(&captured);
    assert_eq!(frames.concat(), captured.concat());
    let total = captured.iter().map(|c| c.len()).sum::<usize>();
    assert_eq!(frames.len(), total / 640 + 1);
    for f in &frames[..frames.len() - 1] {
        assert_eq!(f.len(), 640);
    }
    assert_eq!(frames.last().unwrap().len(), total % 640);
}

#[test]
fn stream_of_whole_frames_has_no_short_tail() {
    let frames = frame_stream(&vec![bytes(1280, 9)]);
    assert_eq!(frames.len(), 2);
    assert!(frame_stream(&Vec::new()).is_empty());
}
