use vstd::prelude::*;

verus! {

/// Everything that can go wrong in the library's own logic.
///
/// Each variant carries the values that a message about it needs; turning an
/// error into text is left to the program around the library.
#[derive(Debug, Clone, PartialEq, Eq)]
pub enum Error {
    /// A dataset ended before a fixed-size field or an array element.
    UnexpectedEnd,
    /// A PTP string announced more characters than the dataset holds.
    StringPastEnd,
    /// A container was shorter than the 12-byte PTP header.
    ResponseTooShort,
    /// A response was expected but a container of this type came.
    NotResponseContainer(u16),
    /// A container of a type that cannot end a transaction came.
    UnexpectedContainerType(u16),
    /// The camera answered an operation with a response code other than OK.
    OperationFailed { operation: u16, response_code: u16 },
    /// A property value had fewer bytes than its type needs.
    PropertyTooShort { prop_code: u16, len: usize },
    /// A USB device has no PTP (still image) interface.
    NoPtpInterface,
    /// The PTP interface has no bulk-in endpoint.
    NoBulkIn,
    /// The PTP interface has no bulk-out endpoint.
    NoBulkOut,
    /// A git URL that is neither `git@host:path`, `https://` nor `http://`
    /// (after trailing slashes and `.git` are trimmed).
    BadRepoUrl(String),
    /// A white balance mode that the camera codes do not include.
    UnknownWhiteBalance(i32),
    /// A film simulation code that no film simulation has.
    UnknownFilmSimulation(i32),
    /// A grain effect code that no grain effect has.
    UnknownGrainEffect(i32),
    /// A color chrome effect code that no level has.
    UnknownColorChromeEffect(i32),
    /// The camera produced no converted JPEG within the polls allowed.
    ConversionTimedOut,
}

} // verus!
