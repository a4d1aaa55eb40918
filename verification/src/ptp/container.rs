//! PTP over USB: containers, response codes and the decisions a session
//! takes between transfers.

use vstd::prelude::*;

use crate::error::Error;
use super::dataset::{le_u16, le_u32, spec_u32, u16_le_bytes, u32_le_bytes, DatasetReader, DatasetWriter};

verus! {

pub const PTP_OC_GET_DEVICE_INFO: u16 = 0x1001;
pub const PTP_OC_OPEN_SESSION: u16 = 0x1002;
pub const PTP_OC_CLOSE_SESSION: u16 = 0x1003;
pub const PTP_OC_GET_OBJECT_HANDLES: u16 = 0x1007;
pub const PTP_OC_GET_OBJECT: u16 = 0x1009;
pub const PTP_OC_DELETE_OBJECT: u16 = 0x100B;
pub const PTP_OC_GET_DEVICE_PROP_VALUE: u16 = 0x1015;
pub const PTP_OC_SET_DEVICE_PROP_VALUE: u16 = 0x1016;

pub const PTP_RC_OK: u16 = 0x2001;
pub const PTP_RC_SESSION_ALREADY_OPEN: u16 = 0x201E;

pub const PTP_CONTAINER_COMMAND: u16 = 1;
pub const PTP_CONTAINER_DATA: u16 = 2;
pub const PTP_CONTAINER_RESPONSE: u16 = 3;

/// Length of the container header: length (u32), type (u16), code (u16),
/// transaction id (u32).
pub const PTP_HEADER_LEN: usize = 12;

/// A PTP container: its length (header included, kept to 32 bits), type,
/// operation or response code and transaction id, little-endian, then the
/// payload.
pub open spec fn container_bytes(
    container_type: u16,
    code: u16,
    transaction_id: u32,
    payload: Seq<u8>,
) -> Seq<u8> {
    u32_le_bytes((12 + payload.len()) as u32) + u16_le_bytes(container_type) + u16_le_bytes(code)
        + u32_le_bytes(transaction_id) + payload
}

/// Build a PTP container around `payload`.
pub fn build_container(container_type: u16, code: u16, transaction_id: u32, payload: &[u8]) -> (b:
    Vec<u8>)
    requires
        payload@.len() + PTP_HEADER_LEN <= usize::MAX,
    ensures
        b@ == container_bytes(container_type, code, transaction_id, payload@),
{
    let len = (PTP_HEADER_LEN + payload.len()) as u32;
    let mut w = DatasetWriter::new();
    w.write_u32(len);
    w.write_u16(container_type);
    w.write_u16(code);
    w.write_u32(transaction_id);
    let mut buf = w.into_bytes();
    let ghost header = buf@;
    let mut i: usize = 0;
    while i < payload.len()
        invariant
            0 <= i <= payload@.len(),
            buf@ == header + payload@.take(i as int),
        decreases payload@.len() - i,
    {
        buf.push(payload[i]);
        i = i + 1;
        assert(buf@ == header + payload@.take(i as int));
    }
    assert(payload@.take(payload@.len() as int) == payload@);
    buf
}

/// The little-endian bytes of each parameter, in order.
pub open spec fn params_bytes(params: Seq<u32>) -> Seq<u8>
    decreases params.len(),
{
    if params.len() == 0 {
        seq![]
    } else {
        params_bytes(params.drop_last()) + u32_le_bytes(params.last())
    }
}

/// The payload of a command container: its parameters, little-endian.
pub fn param_bytes(params: &[u32]) -> (b: Vec<u8>)
    ensures
        b@ == params_bytes(params@),
{
    let mut w = DatasetWriter::new();
    let mut i: usize = 0;
    while i < params.len()
        invariant
            0 <= i <= params@.len(),
            w.bytes() == params_bytes(params@.take(i as int)),
        decreases params@.len() - i,
    {
        w.write_u32(params[i]);
        i = i + 1;
        assert(params@.take(i as int).drop_last() == params@.take(i - 1));
    }
    assert(params@.take(params@.len() as int) == params@);
    w.into_bytes()
}

/// The response code that a response container carries.
pub open spec fn spec_response_code(b: Seq<u8>) -> Result<u16, Error> {
    if b.len() < 12 {
        Err(Error::ResponseTooShort)
    } else if le_u16(b, 4) != PTP_CONTAINER_RESPONSE {
        Err(Error::NotResponseContainer(le_u16(b, 4)))
    } else {
        Ok(le_u16(b, 6))
    }
}

/// The response code of a response container.
pub fn parse_response_code(data: &[u8]) -> (res: Result<u16, Error>)
    ensures
        res == spec_response_code(data@),
{
    if data.len() < PTP_HEADER_LEN {
        return Err(Error::ResponseTooShort);
    }
    let container_type = data[4] as u16 + 256 * (data[5] as u16);
    if container_type != PTP_CONTAINER_RESPONSE {
        return Err(Error::NotResponseContainer(container_type));
    }
    Ok(data[6] as u16 + 256 * (data[7] as u16))
}

/// An operation succeeded exactly when the camera answered OK.
pub fn check_response(operation: u16, response_code: u16) -> (res: Result<(), Error>)
    ensures
        response_code == PTP_RC_OK ==> res == Ok::<(), Error>(()),
        response_code != PTP_RC_OK ==> res == Err::<(), Error>(
            Error::OperationFailed { operation, response_code },
        ),
{
    if response_code != PTP_RC_OK {
        return Err(Error::OperationFailed { operation, response_code });
    }
    Ok(())
}

/// The outcome of a PTP transaction: the response code, and the data the
/// camera sent (empty when it sent none).
pub struct TransactionResult {
    pub response_code: u16,
    pub data: Vec<u8>,
}

/// What the first container received in a transaction says.
pub enum Reply {
    /// The transaction is over.
    Complete(TransactionResult),
    /// The camera sent this data; its response container is still to come.
    AwaitingResponse(Vec<u8>),
}

/// A received container can be read: it holds a header, and a data
/// container's length covers its header and fits in what was received.
pub open spec fn reply_readable(b: Seq<u8>) -> bool {
    &&& b.len() >= 12
    &&& le_u16(b, 4) == PTP_CONTAINER_DATA ==> 12 <= le_u32(b, 0) <= b.len()
}

/// Whether a received container can be read.
pub fn is_reply_readable(buf: &[u8]) -> (ok: bool)
    ensures
        ok == reply_readable(buf@),
{
    if buf.len() < PTP_HEADER_LEN {
        return false;
    }
    let container_type = buf[4] as u16 + 256 * (buf[5] as u16);
    if container_type != PTP_CONTAINER_DATA {
        return true;
    }
    let container_len = buf[0] as u32 + 256 * (buf[1] as u32) + 65536 * (buf[2] as u32)
        + 16777216 * (buf[3] as u32);
    PTP_HEADER_LEN as u32 <= container_len && container_len as usize <= buf.len()
}

/// What the first container of a reply says: the response code when the
/// transaction is over (`None` while the response is still to come), and the
/// data the camera sent.  A data container gives its payload, and its
/// response when that follows in the same transfer; a response container
/// ends the transaction without data; any other container is an error.
pub open spec fn spec_reply(b: Seq<u8>) -> Result<(Option<u16>, Seq<u8>), Error> {
    let t = le_u16(b, 4);
    let len = le_u32(b, 0) as int;
    if t == PTP_CONTAINER_DATA {
        if b.len() > len {
            match spec_response_code(b.skip(len)) {
                Ok(code) => Ok((Some(code), b.subrange(12, len))),
                Err(e) => Err(e),
            }
        } else {
            Ok((None, b.subrange(12, len)))
        }
    } else if t == PTP_CONTAINER_RESPONSE {
        match spec_response_code(b) {
            Ok(code) => Ok((Some(code), Seq::<u8>::empty())),
            Err(e) => Err(e),
        }
    } else {
        Err(Error::UnexpectedContainerType(t))
    }
}

/// Read the first container of a transaction's reply.
pub fn interpret_reply(buf: &[u8]) -> (res: Result<Reply, Error>)
    requires
        reply_readable(buf@),
    ensures
        match spec_reply(buf@) {
            Ok((Some(code), data)) => res matches Ok(Reply::Complete(r)) && r.response_code
                == code && r.data@ == data,
            Ok((None, data)) => res matches Ok(Reply::AwaitingResponse(d)) && d@ == data,
            Err(e) => res matches Err(e2) && e2 == e,
        },
{
    let container_type = buf[4] as u16 + 256 * (buf[5] as u16);
    if container_type == PTP_CONTAINER_DATA {
        let container_len = (buf[0] as u32 + 256 * (buf[1] as u32) + 65536 * (buf[2] as u32)
            + 16777216 * (buf[3] as u32)) as usize;
        let mut data: Vec<u8> = Vec::new();
        let mut i: usize = PTP_HEADER_LEN;
        while i < container_len
            invariant
                PTP_HEADER_LEN <= i <= container_len <= buf@.len(),
                data@ == buf@.subrange(12, i as int),
            decreases container_len - i,
        {
            data.push(buf[i]);
            i = i + 1;
            assert(data@ == buf@.subrange(12, i as int));
        }
        if buf.len() > container_len {
            let mut rest: Vec<u8> = Vec::new();
            let mut j: usize = container_len;
            while j < buf.len()
                invariant
                    container_len <= j <= buf@.len(),
                    rest@ == buf@.subrange(container_len as int, j as int),
                decreases buf@.len() - j,
            {
                rest.push(buf[j]);
                j = j + 1;
                assert(rest@ == buf@.subrange(container_len as int, j as int));
            }
            assert(rest@ == buf@.skip(container_len as int));
            let code = parse_response_code(rest.as_slice())?;
            Ok(Reply::Complete(TransactionResult { response_code: code, data }))
        } else {
            Ok(Reply::AwaitingResponse(data))
        }
    } else if container_type == PTP_CONTAINER_RESPONSE {
        let code = parse_response_code(buf)?;
        Ok(Reply::Complete(TransactionResult { response_code: code, data: Vec::new() }))
    } else {
        Err(Error::UnexpectedContainerType(container_type))
    }
}

/// Complete a transaction whose data came first, with the response container
/// that followed it.
pub fn finish_reply(data: Vec<u8>, response: &[u8]) -> (res: Result<TransactionResult, Error>)
    ensures
        match spec_response_code(response@) {
            Ok(code) => res matches Ok(r) && r.response_code == code && r.data@ == data@,
            Err(e) => res matches Err(e2) && e2 == e,
        },
{
    let response_code = parse_response_code(response)?;
    Ok(TransactionResult { response_code, data })
}

/// The length that a received container announces, once its header is
/// there.
pub fn container_length(buf: &[u8]) -> (res: Result<usize, Error>)
    ensures
        buf@.len() < 12 ==> res == Err::<usize, Error>(Error::ResponseTooShort),
        buf@.len() >= 12 ==> res == Ok::<usize, Error>(le_u32(buf@, 0) as usize),
{
    if buf.len() < PTP_HEADER_LEN {
        return Err(Error::ResponseTooShort);
    }
    Ok(
        (buf[0] as u32 + 256 * (buf[1] as u32) + 65536 * (buf[2] as u32) + 16777216 * (
        buf[3] as u32)) as usize,
    )
}

/// The `n` little-endian `u32` values that start at `b[p]`.
pub open spec fn le_u32s(b: Seq<u8>, p: int, n: int) -> Seq<u32> {
    Seq::new(n as nat, |i: int| le_u32(b, p + 4 * i))
}

/// A PTP array of `u32` at the start of `b`: a `u32` count, then that many
/// values.
pub open spec fn spec_u32_array(b: Seq<u8>) -> Result<Seq<u32>, Error> {
    match spec_u32(b, 0) {
        Err(e) => Err(e),
        Ok((count, q)) => if q + 4 * count <= b.len() {
            Ok(le_u32s(b, q, count as int))
        } else {
            Err(Error::UnexpectedEnd)
        },
    }
}

/// Parse a PTP `u32` array (such as a list of object handles).
pub fn parse_u32_array(data: &[u8]) -> (res: Result<Vec<u32>, Error>)
    ensures
        match spec_u32_array(data@) {
            Ok(vs) => res matches Ok(v) && v@ == vs,
            Err(e) => res matches Err(e2) && e2 == e,
        },
{
    let mut r = DatasetReader::new(data);
    let count = r.read_u32()?;
    let ghost b = data@;
    let mut handles: Vec<u32> = Vec::new();
    let mut i: u32 = 0;
    while i < count
        invariant
            r.bytes() == b,
            b == data@,
            spec_u32(b, 0) == Ok::<(u32, int), Error>((count, 4)),
            0 <= i <= count,
            r.pos() == 4 + 4 * i,
            4 + 4 * i <= b.len(),
            handles@ == le_u32s(b, 4, i as int),
        decreases count - i,
    {
        let h = r.read_u32()?;
        handles.push(h);
        i = i + 1;
        assert(handles@ == le_u32s(b, 4, i as int));
    }
    Ok(handles)
}

/// The transaction id after `id`, wrapping around.
pub fn next_transaction_id(id: u32) -> (next: u32)
    ensures
        next == (if id == u32::MAX {
            0
        } else {
            id + 1
        }),
{
    if id == u32::MAX {
        0
    } else {
        id + 1
    }
}

/// What to do after asking the camera to open a session.
#[derive(Debug, Clone, Copy, PartialEq, Eq, Structural)]
pub enum SessionStart {
    /// The session is open.
    Open,
    /// A stale session from a previous run is still open: reset the device
    /// and ask once more.
    ResetAndRetry,
}

/// Decide on the camera's answer to opening a session.
pub fn session_start(response_code: u16) -> (res: Result<SessionStart, Error>)
    ensures
        response_code == PTP_RC_SESSION_ALREADY_OPEN ==> res == Ok::<SessionStart, Error>(
            SessionStart::ResetAndRetry,
        ),
        response_code == PTP_RC_OK ==> res == Ok::<SessionStart, Error>(SessionStart::Open),
        response_code != PTP_RC_OK && response_code != PTP_RC_SESSION_ALREADY_OPEN ==> res
            == Err::<SessionStart, Error>(
            Error::OperationFailed { operation: PTP_OC_OPEN_SESSION, response_code },
        ),
{
    if response_code == PTP_RC_SESSION_ALREADY_OPEN {
        return Ok(SessionStart::ResetAndRetry);
    }
    check_response(PTP_OC_OPEN_SESSION, response_code)?;
    Ok(SessionStart::Open)
}

/// A `u16` property value: its first two bytes, little-endian.
pub fn prop_u16(prop_code: u16, data: &[u8]) -> (res: Result<u16, Error>)
    ensures
        data@.len() < 2 ==> res == Err::<u16, Error>(
            Error::PropertyTooShort { prop_code, len: data@.len() as usize },
        ),
        data@.len() >= 2 ==> res == Ok::<u16, Error>(le_u16(data@, 0)),
{
    if data.len() < 2 {
        return Err(Error::PropertyTooShort { prop_code, len: data.len() });
    }
    Ok(data[0] as u16 + 256 * (data[1] as u16))
}

/// An `i16` property value: the bits of its `u16` value.
pub fn prop_i16(prop_code: u16, data: &[u8]) -> (res: Result<i16, Error>)
    ensures
        data@.len() < 2 ==> res == Err::<i16, Error>(
            Error::PropertyTooShort { prop_code, len: data@.len() as usize },
        ),
        data@.len() >= 2 ==> res == Ok::<i16, Error>(le_u16(data@, 0) as i16),
{
    let v = prop_u16(prop_code, data)?;
    Ok(v as i16)
}

/// A response container built for `code` is read back as `code`.
pub proof fn lemma_response_roundtrip(code: u16, transaction_id: u32, payload: Seq<u8>)
    ensures
        spec_response_code(container_bytes(PTP_CONTAINER_RESPONSE, code, transaction_id, payload))
            == Ok::<u16, Error>(code),
{
    let b = container_bytes(PTP_CONTAINER_RESPONSE, code, transaction_id, payload);
    assert(b.subrange(4, 6) == u16_le_bytes(PTP_CONTAINER_RESPONSE));
    assert(b.subrange(6, 8) == u16_le_bytes(code));
    super::dataset::lemma_u16_roundtrip(b, 4, PTP_CONTAINER_RESPONSE);
    super::dataset::lemma_u16_roundtrip(b, 6, code);
}

/// A data container followed by its response container, in one transfer,
/// reads as the data and the response code; a data container alone reads as
/// the data, awaiting its response.
pub proof fn lemma_data_reply_roundtrip(
    operation: u16,
    code: u16,
    transaction_id: u32,
    data: Seq<u8>,
    response_payload: Seq<u8>,
)
    requires
        12 + data.len() <= u32::MAX,
    ensures
        ({
            let b = container_bytes(PTP_CONTAINER_DATA, operation, transaction_id, data);
            let r = container_bytes(PTP_CONTAINER_RESPONSE, code, transaction_id, response_payload);
            &&& reply_readable(b + r)
            &&& spec_reply(b + r) == Ok::<(Option<u16>, Seq<u8>), Error>((Some(code), data))
            &&& reply_readable(b)
            &&& spec_reply(b) == Ok::<(Option<u16>, Seq<u8>), Error>((None, data))
        }),
{
    let b = container_bytes(PTP_CONTAINER_DATA, operation, transaction_id, data);
    let r = container_bytes(PTP_CONTAINER_RESPONSE, code, transaction_id, response_payload);
    let br = b + r;
    let len: int = 12 + data.len() as int;
    assert(b.subrange(0, 4) == u32_le_bytes(len as u32));
    assert(b.subrange(4, 6) == u16_le_bytes(PTP_CONTAINER_DATA));
    assert(br.subrange(0, 4) == u32_le_bytes(len as u32));
    assert(br.subrange(4, 6) == u16_le_bytes(PTP_CONTAINER_DATA));
    super::dataset::lemma_u32_roundtrip(b, 0, len as u32);
    super::dataset::lemma_u16_roundtrip(b, 4, PTP_CONTAINER_DATA);
    super::dataset::lemma_u32_roundtrip(br, 0, len as u32);
    super::dataset::lemma_u16_roundtrip(br, 4, PTP_CONTAINER_DATA);
    assert(b.len() == len);
    assert(br.skip(len) == r);
    assert(br.subrange(12, len) == data);
    assert(b.subrange(12, len) == data);
    lemma_response_roundtrip(code, transaction_id, response_payload);
}


/// The most bytes sent in one bulk transfer.  Linux's usbfs caps the memory
/// of one transfer (16 MB by default) and rejects larger ones, so outgoing
/// data goes in pieces well under it.
pub const PTP_SEND_CHUNK: usize = 1048576;

/// Where the next piece of outgoing data ends, when `offset` of its `len`
/// bytes are sent: a whole chunk further, or the end of the data.
pub fn send_chunk_end(offset: usize, len: usize) -> (end: usize)
    requires
        offset < len,
    ensures
        end == (if offset + PTP_SEND_CHUNK <= len {
            offset + PTP_SEND_CHUNK
        } else {
            len as int
        }),
        offset < end <= len,
{
    if len - offset >= PTP_SEND_CHUNK {
        offset + PTP_SEND_CHUNK
    } else {
        len
    }
}


/// A container's header, low byte first: bytes 0..4 hold its whole length
/// (12 header bytes and the payload, kept to 32 bits), bytes 4..6 its type,
/// bytes 6..8 its code, bytes 8..12 the transaction id; the payload follows.
pub proof fn lemma_container_layout(
    container_type: u16,
    code: u16,
    transaction_id: u32,
    payload: Seq<u8>,
)
    ensures
        ({
            let b = container_bytes(container_type, code, transaction_id, payload);
            &&& b.len() == 12 + payload.len()
            &&& b[0] as int + 256 * (b[1] as int) + 65536 * (b[2] as int) + 16777216 * (b[3] as int)
                == ((12 + payload.len()) as u32)
            &&& b[4] as int + 256 * (b[5] as int) == container_type
            &&& b[6] as int + 256 * (b[7] as int) == code
            &&& b[8] as int + 256 * (b[9] as int) + 65536 * (b[10] as int) + 16777216 * (
            b[11] as int) == transaction_id
            &&& b.skip(12) == payload
        }),
{
    let b = container_bytes(container_type, code, transaction_id, payload);
    let len = (12 + payload.len()) as u32;
    crate::ptp::dataset::lemma_le_bytes_values(container_type, len, b, 0);
    crate::ptp::dataset::lemma_le_bytes_values(code, transaction_id, b, 0);
    assert(b[0] == u32_le_bytes(len)[0] && b[1] == u32_le_bytes(len)[1] && b[2] == u32_le_bytes(
        len,
    )[2] && b[3] == u32_le_bytes(len)[3]);
    assert(b[4] == u16_le_bytes(container_type)[0] && b[5] == u16_le_bytes(container_type)[1]);
    assert(b[6] == u16_le_bytes(code)[0] && b[7] == u16_le_bytes(code)[1]);
    assert(b[8] == u32_le_bytes(transaction_id)[0] && b[9] == u32_le_bytes(transaction_id)[1]
        && b[10] == u32_le_bytes(transaction_id)[2] && b[11] == u32_le_bytes(transaction_id)[3]);
    assert(b.skip(12) == payload);
}

/// A response's code is read from bytes 6..8 of a container whose type,
/// bytes 4..6, is the response type, each low byte first.
pub proof fn lemma_response_code_bytes(b: Seq<u8>)
    requires
        b.len() >= 12,
    ensures
        b[4] as int + 256 * (b[5] as int) == PTP_CONTAINER_RESPONSE ==> spec_response_code(b)
            == Ok::<u16, Error>((b[6] as int + 256 * (b[7] as int)) as u16),
        b[4] as int + 256 * (b[5] as int) != PTP_CONTAINER_RESPONSE ==> spec_response_code(b)
            == Err::<u16, Error>(
            Error::NotResponseContainer((b[4] as int + 256 * (b[5] as int)) as u16),
        ),
{
    crate::ptp::dataset::lemma_le_bytes_values(0, 0, b, 4);
    crate::ptp::dataset::lemma_le_bytes_values(0, 0, b, 6);
}

} // verus!
