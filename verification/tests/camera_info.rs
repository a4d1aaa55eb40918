use fujinx::ptp::DatasetWriter;
use fujinx::{CameraInfo, Error};

fn device_info() -> Vec<u8> {
    let mut w = DatasetWriter::new();
    w.write_u16(100); // StandardVersion
    w.write_u32(0x0000_000E); // VendorExtensionID
    w.write_u16(100); // VendorExtensionVersion
    w.write_ptp_string("fujifilm.co.jp: 1.0;");
    w.write_u16(0); // FunctionalMode
    w.write_u32(2);
    w.write_u16(0x1001);
    w.write_u16(0x1002);
    w.write_u32(1); // Events
    w.write_u16(0x4002);
    w.write_u32(1);
    w.write_u16(0xD185);
    w.write_u32(0);
    w.write_u32(1);
    w.write_u16(0x3801);
    w.write_ptp_string("FUJIFILM");
    w.write_ptp_string("X-M5");
    w.write_ptp_string("1.10");
    w.write_ptp_string("593532");
    w.into_bytes()
}

#[test]
fn parses_device_info() {
    let info = CameraInfo::parse(&device_info()).unwrap();
    assert_eq!(info.operations_supported, vec![0x1001, 0x1002]);
    assert_eq!(info.device_properties_supported, vec![0xD185]);
    assert_eq!(info.capture_formats, Vec::<u16>::new());
    assert_eq!(info.image_formats, vec![0x3801]);
    assert_eq!(info.manufacturer, "FUJIFILM");
    assert_eq!(info.model, "X-M5");
    assert_eq!(info.device_version, "1.10");
    assert_eq!(info.serial_number, "593532");
}

#[test]
fn truncated_device_info_fails() {
    let data = device_info();
    assert_eq!(CameraInfo::parse(&data[..data.len() - 1]).unwrap_err(), Error::StringPastEnd);
    assert_eq!(CameraInfo::parse(&data[..data.len() - 15]).unwrap_err(), Error::UnexpectedEnd);
    assert_eq!(CameraInfo::parse(&data[..4]).unwrap_err(), Error::UnexpectedEnd);
    assert_eq!(CameraInfo::parse(&data[..12]).unwrap_err(), Error::StringPastEnd);
}

#[test]
fn camera_info_ignores_trailing_bytes_and_rejects_prefixes() {
    let data = device_info();
    let mut longer = data.clone();
    longer.extend_from_slice(&[1, 2, 3, 4, 5]);
    let a = CameraInfo::parse(&data).unwrap();
    let b = CameraInfo::parse(&longer).unwrap();
    assert_eq!(a.model, b.model);
    assert_eq!(a.serial_number, b.serial_number);
    assert_eq!(a.operations_supported, b.operations_supported);
    assert_eq!(a.image_formats, b.image_formats);
    for k in 0..data.len() {
        assert!(CameraInfo::parse(&data[..k]).is_err(), "prefix of {k} bytes parsed");
    }
}
