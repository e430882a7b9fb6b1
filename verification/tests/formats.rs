use syb_tracker::instrument::{instrument_kind, InstrumentKind, INSTRUMENTS};
use syb_tracker::wav::wav_header;

#[test]
fn wav_header_layout() {
    let h = wav_header(100, 44000);
    let expected: Vec<u8> = vec![
        b'R', b'I', b'F', b'F', 136, 0, 0, 0, b'W', b'A', b'V', b'E', b'f', b'm', b't', b' ', 16, 0,
        0, 0, 1, 0, 1, 0, 0xe0, 0xab, 0, 0, 0xe0, 0xab, 0, 0, 1, 0, 8, 0, b'd', b'a', b't', b'a',
        100, 0, 0, 0,
    ];
    assert_eq!(h, expected);
}

#[test]
fn wav_header_sizes_are_little_endian() {
    let h = wav_header(0x0102_0304, 0x0a0b_0c0d);
    assert_eq!(&h[4..8], &[0x28, 0x03, 0x02, 0x01]);
    assert_eq!(&h[24..28], &[0x0d, 0x0c, 0x0b, 0x0a]);
    assert_eq!(&h[40..44], &[0x04, 0x03, 0x02, 0x01]);
}

#[test]
fn instrument_ids_and_names() {
    let names: Vec<&str> = INSTRUMENTS
        .iter()
        .map(|&id| instrument_kind(id).expect("a listed id").name())
        .collect();
    assert_eq!(names, vec!["---", "SIN", "SQR", "SAW", "TRI"]);
    assert_eq!(instrument_kind(3), Some(InstrumentKind::Saw));
    assert_eq!(instrument_kind(5), None);
    assert_eq!(instrument_kind(0xffff), None);
}
