use voice_assistant::pcm::{decode_pcm16, decode_sample, encode_pcm16, encode_sample};

#[test]
fn encodes_little_endian() {
    assert_eq!(encode_pcm16(&[1, -1, 256, i16::MIN, i16::MAX]), vec![1, 0, 255, 255, 0, 1, 0, 128, 255, 127]);
    assert_eq!(encode_sample(0x1234), (0x34, 0x12));
}

#[test]
fn decodes_little_endian() {
    assert_eq!(decode_pcm16(&[1, 0, 255, 255, 0, 128, 255, 127]), vec![1, -1, i16::MIN, i16::MAX]);
    assert_eq!(decode_sample(0x34, 0x12), 0x1234);
}

#[test]
fn odd_trailing_byte_is_not_a_sample() {
    assert_eq!(decode_pcm16(&[2, 0, 7]), vec![2]);
    assert!(decode_pcm16(&[]).is_empty());
}

#[test]
fn round_trip() {
    let samples: Vec<i16> = vec![0, 5, -5, 1000, -32768, 32767, -300];
    assert_eq!(decode_pcm16(&encode_pcm16(&samples)), samples);
}
