//! The PTP DeviceInfo dataset (PTP spec 5.5.1).

use vstd::prelude::*;

use crate::error::Error;
use super::dataset::{
    agree_upto, lemma_ptp_string_agree, lemma_skip_agree, lemma_u16_array_agree, spec_ptp_string,
    spec_skip, spec_skip_u16_array, spec_u16_array, DatasetReader,
};

verus! {

/// The fields this tool keeps from a DeviceInfo dataset: the operations,
/// device properties, capture formats and image formats supported, in that
/// order, and the manufacturer, model, device version and serial number, in
/// that order.
///
/// The dataset is StandardVersion (u16), VendorExtensionID (u32),
/// VendorExtensionVersion (u16), VendorExtensionDesc (string),
/// FunctionalMode (u16), then the arrays OperationsSupported,
/// EventsSupported, DevicePropertiesSupported, CaptureFormats and
/// ImageFormats, then the four strings.  The last item is the position right
/// after the dataset.
pub open spec fn spec_camera_info(b: Seq<u8>) -> Result<
    (Seq<Seq<u16>>, Seq<Seq<char>>, int),
    Error,
> {
    match spec_skip(b, 0, 8) {
        Err(e) => Err(e),
        Ok(p1) => match spec_ptp_string(b, p1) {
            Err(e) => Err(e),
            Ok((_, p2)) => match spec_skip(b, p2, 2) {
                Err(e) => Err(e),
                Ok(p3) => match spec_u16_array(b, p3) {
                    Err(e) => Err(e),
                    Ok((ops, p4)) => match spec_skip_u16_array(b, p4) {
                        Err(e) => Err(e),
                        Ok(p5) => match spec_u16_array(b, p5) {
                            Err(e) => Err(e),
                            Ok((props, p6)) => match spec_u16_array(b, p6) {
                                Err(e) => Err(e),
                                Ok((captures, p7)) => match spec_u16_array(b, p7) {
                                    Err(e) => Err(e),
                                    Ok((images, p8)) => match spec_ptp_string(b, p8) {
                                        Err(e) => Err(e),
                                        Ok((manufacturer, p9)) => match spec_ptp_string(b, p9) {
                                            Err(e) => Err(e),
                                            Ok((model, p10)) => match spec_ptp_string(b, p10) {
                                                Err(e) => Err(e),
                                                Ok((version, p11)) => match spec_ptp_string(
                                                    b,
                                                    p11,
                                                ) {
                                                    Err(e) => Err(e),
                                                    Ok((serial, p12)) => Ok(
                                                        (
                                                            seq![ops, props, captures, images],
                                                            seq![
                                                                manufacturer,
                                                                model,
                                                                version,
                                                                serial,
                                                            ],
                                                            p12,
                                                        ),
                                                    ),
                                                },
                                            },
                                        },
                                    },
                                },
                            },
                        },
                    },
                },
            },
        },
    }
}

/// Device information from a connected camera.
#[derive(Debug, Clone)]
pub struct CameraInfo {
    pub manufacturer: String,
    pub model: String,
    pub device_version: String,
    pub serial_number: String,
    pub operations_supported: Vec<u16>,
    pub device_properties_supported: Vec<u16>,
    pub capture_formats: Vec<u16>,
    pub image_formats: Vec<u16>,
}

impl CameraInfo {
    /// Parse PTP DeviceInfo dataset (PTP spec 5.5.1).
    pub fn parse(data: &[u8]) -> (res: Result<Self, Error>)
        ensures
            match spec_camera_info(data@) {
                Ok((arrays, strings, _)) => res matches Ok(info) && info.operations_supported@
                    == arrays[0] && info.device_properties_supported@ == arrays[1]
                    && info.capture_formats@ == arrays[2] && info.image_formats@ == arrays[3]
                    && info.manufacturer@ == strings[0] && info.model@ == strings[1]
                    && info.device_version@ == strings[2] && info.serial_number@ == strings[3],
                Err(e) => res matches Err(e2) && e2 == e,
            },
    {
        let mut r = DatasetReader::new(data);

        // Skip: StandardVersion(u16) + VendorExtensionID(u32) + VendorExtensionVersion(u16)
        r.skip(8)?;
        r.read_ptp_string()?;  // VendorExtensionDesc
        r.skip(2)?;  // FunctionalMode
        let operations_supported = r.read_u16_array()?;
        r.skip_u16_array()?;  // Events
        let device_properties_supported = r.read_u16_array()?;
        let capture_formats = r.read_u16_array()?;
        let image_formats = r.read_u16_array()?;
        let manufacturer = r.read_ptp_string()?;
        let model = r.read_ptp_string()?;
        let device_version = r.read_ptp_string()?;
        let serial_number = r.read_ptp_string()?;

        Ok(
            Self {
                manufacturer,
                model,
                device_version,
                serial_number,
                operations_supported,
                device_properties_supported,
                capture_formats,
                image_formats,
            },
        )
    }
}


/// A DeviceInfo dataset that parses from `b` parses the same from data that
/// agrees with `b` up to the dataset's end, and fails on every prefix of `b`
/// that ends before it.
proof fn lemma_camera_info_agree(b: Seq<u8>, c: Seq<u8>)
    requires
        spec_camera_info(b) is Ok,
    ensures
        spec_camera_info(b)->Ok_0.2 <= b.len(),
        c.len() >= spec_camera_info(b)->Ok_0.2 && agree_upto(b, c, spec_camera_info(b)->Ok_0.2)
            ==> spec_camera_info(c) == spec_camera_info(b),
        c.len() < spec_camera_info(b)->Ok_0.2 && agree_upto(b, c, c.len() as int)
            ==> spec_camera_info(c) is Err,
{
    let end = spec_camera_info(b)->Ok_0.2;
    let p1 = spec_skip(b, 0, 8)->Ok_0;
    lemma_skip_agree(b, c, 0, 8);
    let p2 = spec_ptp_string(b, p1)->Ok_0.1;
    lemma_ptp_string_agree(b, c, p1);
    let p3 = spec_skip(b, p2, 2)->Ok_0;
    lemma_skip_agree(b, c, p2, 2);
    let p4 = spec_u16_array(b, p3)->Ok_0.1;
    lemma_u16_array_agree(b, c, p3);
    let p5 = spec_skip_u16_array(b, p4)->Ok_0;
    lemma_u16_array_agree(b, c, p4);
    let p6 = spec_u16_array(b, p5)->Ok_0.1;
    lemma_u16_array_agree(b, c, p5);
    let p7 = spec_u16_array(b, p6)->Ok_0.1;
    lemma_u16_array_agree(b, c, p6);
    let p8 = spec_u16_array(b, p7)->Ok_0.1;
    lemma_u16_array_agree(b, c, p7);
    let p9 = spec_ptp_string(b, p8)->Ok_0.1;
    lemma_ptp_string_agree(b, c, p8);
    let p10 = spec_ptp_string(b, p9)->Ok_0.1;
    lemma_ptp_string_agree(b, c, p9);
    let p11 = spec_ptp_string(b, p10)->Ok_0.1;
    lemma_ptp_string_agree(b, c, p10);
    lemma_ptp_string_agree(b, c, p11);
    assert(end == spec_ptp_string(b, p11)->Ok_0.1);
    if c.len() >= end && agree_upto(b, c, end) {
        assert(agree_upto(b, c, p2));
        assert(agree_upto(b, c, p4));
        assert(agree_upto(b, c, p5));
        assert(agree_upto(b, c, p6));
        assert(agree_upto(b, c, p7));
        assert(agree_upto(b, c, p8));
        assert(agree_upto(b, c, p9));
        assert(agree_upto(b, c, p10));
        assert(agree_upto(b, c, p11));
    }
    if c.len() < end && agree_upto(b, c, c.len() as int) {
        let l = c.len() as int;
        if l >= p2 {
            assert(agree_upto(b, c, p2));
        }
        if l >= p4 {
            assert(agree_upto(b, c, p4));
        }
        if l >= p5 {
            assert(agree_upto(b, c, p5));
        }
        if l >= p6 {
            assert(agree_upto(b, c, p6));
        }
        if l >= p7 {
            assert(agree_upto(b, c, p7));
        }
        if l >= p8 {
            assert(agree_upto(b, c, p8));
        }
        if l >= p9 {
            assert(agree_upto(b, c, p9));
        }
        if l >= p10 {
            assert(agree_upto(b, c, p10));
        }
        if l >= p11 {
            assert(agree_upto(b, c, p11));
        }
    }
}

/// Bytes after a DeviceInfo dataset change nothing of what it parses to.
pub proof fn lemma_camera_info_trailing(b: Seq<u8>, extra: Seq<u8>)
    requires
        spec_camera_info(b) is Ok,
    ensures
        spec_camera_info(b + extra) == spec_camera_info(b),
{
    lemma_camera_info_agree(b, b + extra);
    let end = spec_camera_info(b)->Ok_0.2;
    assert(agree_upto(b, b + extra, end));
}

/// A DeviceInfo dataset that ends exactly where its data ends fails to parse
/// when cut short by any number of bytes.
pub proof fn lemma_camera_info_prefix(b: Seq<u8>, k: int)
    requires
        spec_camera_info(b) is Ok,
        spec_camera_info(b)->Ok_0.2 == b.len(),
        0 <= k < b.len(),
    ensures
        spec_camera_info(b.take(k)) is Err,
{
    lemma_camera_info_agree(b, b.take(k));
    assert(agree_upto(b, b.take(k), k));
}

} // verus!
