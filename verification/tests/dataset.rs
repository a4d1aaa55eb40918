use fujinx::ptp::{DatasetReader, DatasetWriter};
use fujinx::Error;

#[test]
fn reader_reads_little_endian_fields() {
    let data = [0x34, 0x12, 0x78, 0x56, 0x34, 0x12, 0xFF];
    let mut r = DatasetReader::new(&data);
    assert_eq!(r.read_u16().unwrap(), 0x1234);
    assert_eq!(r.read_u32().unwrap(), 0x1234_5678);
    assert_eq!(r.read_u16(), Err(Error::UnexpectedEnd));
    assert_eq!(r.skip(1), Ok(()));
    assert_eq!(r.skip(1), Err(Error::UnexpectedEnd));
}

#[test]
fn writer_then_reader_roundtrip() {
    let mut w = DatasetWriter::new();
    w.write_u16(0xBEEF);
    w.write_u32(0xDEAD_BEEF);
    w.write_ptp_string("X-M5");
    w.write_ptp_string("");
    let bytes = w.into_bytes();
    assert_eq!(&bytes[..6], &[0xEF, 0xBE, 0xEF, 0xBE, 0xAD, 0xDE]);
    assert_eq!(bytes[6], 5);

    let mut r = DatasetReader::new(&bytes);
    assert_eq!(r.read_u16().unwrap(), 0xBEEF);
    assert_eq!(r.read_u32().unwrap(), 0xDEAD_BEEF);
    assert_eq!(r.read_ptp_string().unwrap(), "X-M5");
    assert_eq!(r.read_ptp_string().unwrap(), "");
    assert_eq!(r.read_ptp_string(), Err(Error::UnexpectedEnd));
}

#[test]
fn ptp_string_stops_at_first_zero_and_replaces_lone_surrogates() {
    // Four units: 'a', a lone high surrogate, zero, 'b'.
    let data = [4, b'a', 0, 0x00, 0xD8, 0, 0, b'b', 0];
    let mut r = DatasetReader::new(&data);
    assert_eq!(r.read_ptp_string().unwrap(), "a\u{FFFD}");

    // Supplementary character as a surrogate pair.
    let mut w = DatasetWriter::new();
    w.write_ptp_string("😀");
    let bytes = w.into_bytes();
    assert_eq!(bytes, vec![3, 0x3D, 0xD8, 0x00, 0xDE, 0, 0]);
    assert_eq!(DatasetReader::new(&bytes).read_ptp_string().unwrap(), "😀");
}

#[test]
fn ptp_string_past_end() {
    let data = [3, b'a', 0];
    let mut r = DatasetReader::new(&data);
    assert_eq!(r.read_ptp_string(), Err(Error::StringPastEnd));
    let empty: [u8; 0] = [];
    assert_eq!(DatasetReader::new(&empty).read_ptp_string(), Err(Error::UnexpectedEnd));
}

#[test]
fn u16_arrays() {
    let data = [2, 0, 0, 0, 0x01, 0x10, 0x02, 0x10, 1, 0, 0, 0, 9, 9];
    let mut r = DatasetReader::new(&data);
    assert_eq!(r.read_u16_array().unwrap(), vec![0x1001, 0x1002]);
    assert_eq!(r.skip_u16_array(), Ok(()));
    assert_eq!(r.read_u16_array(), Err(Error::UnexpectedEnd));

    let short = [3, 0, 0, 0, 1, 0];
    assert_eq!(DatasetReader::new(&short).read_u16_array(), Err(Error::UnexpectedEnd));
    assert_eq!(DatasetReader::new(&short).skip_u16_array(), Err(Error::UnexpectedEnd));
}

#[test]
fn writes_concatenate() {
    let mut w = DatasetWriter::new();
    w.write_u16(0xBEEF);
    w.write_ptp_string("ab");
    w.write_u32(0x0102_0304);
    w.write_ptp_string("");
    let mut expected = Vec::new();
    expected.extend_from_slice(&0xBEEFu16.to_le_bytes());
    expected.extend_from_slice(&[3, b'a', 0, b'b', 0, 0, 0]);
    expected.extend_from_slice(&0x0102_0304u32.to_le_bytes());
    expected.push(0);
    assert_eq!(w.into_bytes(), expected);
}

#[test]
fn longest_ptp_string() {
    let s: String = std::iter::repeat('x').take(254).collect();
    let mut w = DatasetWriter::new();
    w.write_ptp_string(&s);
    let b = w.into_bytes();
    assert_eq!(b.len(), 1 + 2 * 255);
    assert_eq!(b[0], 255);
    let mut r = DatasetReader::new(&b);
    assert_eq!(r.read_ptp_string().unwrap(), s);
}
