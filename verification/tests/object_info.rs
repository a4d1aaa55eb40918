use fujinx::ObjectInfo;

#[test]
fn roundtrip() {
    let original = ObjectInfo {
        format_code: 0x3801,
        compressed_size: 1_234_567,
        filename: "DSCF1234.RAF".to_string(),
    };

    let data = original.to_dataset();
    let parsed = ObjectInfo::parse(&data).unwrap();

    assert_eq!(parsed.format_code, 0x3801);
    assert_eq!(parsed.compressed_size, 1_234_567);
    assert_eq!(parsed.filename, "DSCF1234.RAF");
}

#[test]
fn parse_truncated_data_fails() {
    let data = ObjectInfo {
        format_code: 0x3801,
        compressed_size: 100,
        filename: "test.jpg".to_string(),
    }
    .to_dataset();

    assert!(ObjectInfo::parse(&data[..10]).is_err());
}

#[test]
fn object_info_layout() {
    let data = ObjectInfo {
        format_code: 0xF802,
        compressed_size: 0x0102_0304,
        filename: "A".to_string(),
    }
    .to_dataset();
    // 52 fixed bytes, the filename (count byte + 2 units), three empty strings.
    assert_eq!(data.len(), 52 + 5 + 3);
    assert_eq!(&data[0..4], &[0, 0, 0, 0]);
    assert_eq!(&data[4..6], &[0x02, 0xF8]);
    assert_eq!(&data[8..12], &[0x04, 0x03, 0x02, 0x01]);
    assert_eq!(&data[52..57], &[2, b'A', 0, 0, 0]);
    assert_eq!(&data[57..], &[0, 0, 0]);
}

#[test]
fn object_info_roundtrip_non_ascii_filename() {
    let original = ObjectInfo {
        format_code: 0x3000,
        compressed_size: u32::MAX,
        filename: "фото_😀.jpg".to_string(),
    };
    let parsed = ObjectInfo::parse(&original.to_dataset()).unwrap();
    assert_eq!(parsed.format_code, 0x3000);
    assert_eq!(parsed.compressed_size, u32::MAX);
    assert_eq!(parsed.filename, "фото_😀.jpg");
}

#[test]
fn object_info_string_past_end() {
    let mut data = vec![0u8; 52];
    data.push(5); // five units announced, none present
    assert_eq!(ObjectInfo::parse(&data).unwrap_err(), fujinx::Error::StringPastEnd);
    assert_eq!(ObjectInfo::parse(&data[..51]).unwrap_err(), fujinx::Error::UnexpectedEnd);
}
