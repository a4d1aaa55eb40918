//! The PTP ObjectInfo dataset (PTP spec 5.5.2), as far as this tool uses it.

use vstd::prelude::*;

use crate::error::Error;
use super::dataset::{
    le_u16, le_u32, lemma_le_bytes_values, lemma_ptp_string_roundtrip, lemma_u16_roundtrip, lemma_u32_roundtrip,
    ptp_string_bytes, spec_ptp_string, u16_le_bytes, u32_le_bytes, DatasetReader, DatasetWriter,
};
use crate::utf16::utf16_encode;

verus! {

/// `n` zero bytes.
pub open spec fn zeros(n: nat) -> Seq<u8> {
    Seq::new(n, |i: int| 0u8)
}

/// The ObjectInfo fields this tool reads: the format code at byte 4, the
/// compressed size at byte 8, and the filename, a PTP string at byte 52.
pub open spec fn spec_object_info(b: Seq<u8>) -> Result<(u16, u32, Seq<char>), Error> {
    if b.len() < 52 {
        Err(Error::UnexpectedEnd)
    } else {
        match spec_ptp_string(b, 52) {
            Ok((name, _)) => Ok((le_u16(b, 4), le_u32(b, 8), name)),
            Err(e) => Err(e),
        }
    }
}

/// The ObjectInfo dataset that this tool sends: every field zero but the
/// format code, the compressed size and the filename; the three date and
/// keyword strings empty.
pub open spec fn object_info_bytes(format_code: u16, size: u32, filename: Seq<char>) -> Seq<u8> {
    zeros(4) + u16_le_bytes(format_code) + zeros(2) + u32_le_bytes(size) + zeros(40)
        + ptp_string_bytes(filename) + zeros(3)
}

/// PTP ObjectInfo dataset fields.
#[derive(Debug, Clone)]
pub struct ObjectInfo {
    pub format_code: u16,
    pub compressed_size: u32,
    pub filename: String,
}

impl ObjectInfo {
    /// Parse a PTP ObjectInfo dataset.
    pub fn parse(data: &[u8]) -> (res: Result<Self, Error>)
        ensures
            match spec_object_info(data@) {
                Ok((format_code, size, name)) => res matches Ok(info) && info.format_code
                    == format_code && info.compressed_size == size && info.filename@ == name,
                Err(e) => res matches Err(e2) && e2 == e,
            },
    {
        let mut r = DatasetReader::new(data);

        r.skip(4)?;  // StorageID
        let format_code = r.read_u16()?;
        r.skip(2)?;  // ProtectionStatus
        let compressed_size = r.read_u32()?;
        r.skip(2 + 4 * 7 + 2)?;  // ThumbFormat(u16)..ParentObject(u32) + AssociationType(u16)
        r.skip(4 + 4)?;  // AssociationDesc + SequenceNumber
        let filename = r.read_ptp_string()?;

        Ok(Self { format_code, compressed_size, filename })
    }

    /// Build a PTP ObjectInfo dataset (PTP spec 5.5.2); the filename, a PTP
    /// string, takes at most 254 UTF-16 units.
    pub fn to_dataset(&self) -> (b: Vec<u8>)
        requires
            utf16_encode(self.filename@).len() <= 254,
        ensures
            b@ == object_info_bytes(self.format_code, self.compressed_size, self.filename@),
    {
        let mut w = DatasetWriter::new();

        w.write_u32(0);  // StorageID (ignored on send)
        w.write_u16(self.format_code);
        w.write_u16(0);  // ProtectionStatus
        w.write_u32(self.compressed_size);
        w.write_u16(0);  // ThumbFormat
        w.write_u32(0);  // ThumbCompressedSize
        w.write_u32(0);  // ThumbPixWidth
        w.write_u32(0);  // ThumbPixHeight
        w.write_u32(0);  // ImagePixWidth
        w.write_u32(0);  // ImagePixHeight
        w.write_u32(0);  // ImageBitDepth
        w.write_u32(0);  // ParentObject
        w.write_u16(0);  // AssociationType
        w.write_u32(0);  // AssociationDesc
        w.write_u32(0);  // SequenceNumber
        w.write_ptp_string(self.filename.as_str());
        let ghost before_dates = w.bytes();
        proof {
            reveal_strlit("");
            assert(utf16_encode(""@) == Seq::<u16>::empty());
        }
        w.write_ptp_string("");  // CaptureDate
        w.write_ptp_string("");  // ModificationDate
        w.write_ptp_string("");  // Keywords
        proof {
            reveal_strlit("");
            assert(u16_le_bytes(0) == zeros(2));
            assert(u32_le_bytes(0) == zeros(4));
            assert(ptp_string_bytes(""@) == zeros(1));
            assert(w.bytes() == before_dates + zeros(3));
        }
        w.into_bytes()
    }
}

/// Parsing the dataset that `to_dataset` builds gives the same fields back,
/// for a filename without NUL that takes at most 254 UTF-16 units.
pub proof fn lemma_object_info_roundtrip(format_code: u16, size: u32, filename: Seq<char>)
    requires
        !filename.contains('\0'),
        utf16_encode(filename).len() <= 254,
    ensures
        spec_object_info(object_info_bytes(format_code, size, filename)) == Ok::<
            (u16, u32, Seq<char>),
            Error,
        >((format_code, size, filename)),
{
    let b = object_info_bytes(format_code, size, filename);
    let name = ptp_string_bytes(filename);
    assert(b.subrange(4, 6) == u16_le_bytes(format_code));
    assert(b.subrange(8, 12) == u32_le_bytes(size));
    assert(b.subrange(52, 52 + name.len() as int) == name);
    lemma_u16_roundtrip(b, 4, format_code);
    lemma_u32_roundtrip(b, 8, size);
    lemma_ptp_string_roundtrip(b, 52, filename);
}


/// The dataset built for an upload holds the format code at bytes 4 and 5
/// and the compressed size at bytes 8 to 11, each low byte first; the
/// filename as a PTP string from byte 52; then three empty strings.  Every
/// other byte is zero: the storage id (0..4), the protection status (6..8,
/// no protection), and the thumbnail, image, parent, association and
/// sequence fields (12..52).
pub proof fn lemma_object_info_layout(format_code: u16, size: u32, filename: Seq<char>)
    ensures
        object_info_bytes(format_code, size, filename).len() == 52 + ptp_string_bytes(
            filename,
        ).len() + 3,
        forall|i: int|
            0 <= i < 4 || 6 <= i < 8 || 12 <= i < 52 ==> #[trigger] object_info_bytes(
                format_code,
                size,
                filename,
            )[i] == 0,
        object_info_bytes(format_code, size, filename)[4] as int + 256 * (object_info_bytes(
            format_code,
            size,
            filename,
        )[5] as int) == format_code,
        object_info_bytes(format_code, size, filename)[8] as int + 256 * (object_info_bytes(
            format_code,
            size,
            filename,
        )[9] as int) + 65536 * (object_info_bytes(format_code, size, filename)[10] as int)
            + 16777216 * (object_info_bytes(format_code, size, filename)[11] as int) == size,
        object_info_bytes(format_code, size, filename).subrange(
            52,
            52 + ptp_string_bytes(filename).len() as int,
        ) == ptp_string_bytes(filename),
        forall|i: int|
            52 + ptp_string_bytes(filename).len() <= i < 55 + ptp_string_bytes(filename).len()
                ==> #[trigger] object_info_bytes(format_code, size, filename)[i] == 0,
{
    let b = object_info_bytes(format_code, size, filename);
    let n = ptp_string_bytes(filename).len();
    lemma_le_bytes_values(format_code, size, b, 0);
    assert(b[4] == u16_le_bytes(format_code)[0] && b[5] == u16_le_bytes(format_code)[1]);
    assert(b[8] == u32_le_bytes(size)[0] && b[9] == u32_le_bytes(size)[1] && b[10]
        == u32_le_bytes(size)[2] && b[11] == u32_le_bytes(size)[3]);
    assert(b.subrange(52, 52 + n as int) == ptp_string_bytes(filename));
}

} // verus!
