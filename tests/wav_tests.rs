use konane::wav::create_wav_data;

#[test]
fn wav_header_and_samples() {
    let bytes = create_wav_data(&[1, -2], 44100);
    let mut expected: Vec<u8> = Vec::new();
    expected.extend_from_slice(b"RIFF");
    expected.extend_from_slice(&[40, 0, 0, 0]);
    expected.extend_from_slice(b"WAVE");
    expected.extend_from_slice(b"fmt ");
    expected.extend_from_slice(&[16, 0, 0, 0]);
    expected.extend_from_slice(&[1, 0, 1, 0]);
    expected.extend_from_slice(&[0x44, 0xAC, 0, 0]);
    expected.extend_from_slice(&[0x88, 0x58, 0x01, 0]);
    expected.extend_from_slice(&[2, 0, 16, 0]);
    expected.extend_from_slice(b"data");
    expected.extend_from_slice(&[4, 0, 0, 0]);
    expected.extend_from_slice(&[1, 0, 0xFE, 0xFF]);
    assert_eq!(bytes, expected);
}

#[test]
fn wav_of_no_samples_is_a_bare_header() {
    let bytes = create_wav_data(&[], 8000);
    assert_eq!(bytes.len(), 44);
    assert_eq!(&bytes[4..8], &[36, 0, 0, 0]);
    assert_eq!(&bytes[40..44], &[0, 0, 0, 0]);
}
