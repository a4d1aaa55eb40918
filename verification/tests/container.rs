use fujinx::ptp::container::{send_chunk_end, PTP_SEND_CHUNK};
use fujinx::ptp::container::{
    build_container, check_response, container_length, finish_reply, interpret_reply,
    is_reply_readable, next_transaction_id, param_bytes, parse_response_code, parse_u32_array,
    prop_i16, prop_u16, session_start, Reply, SessionStart, PTP_CONTAINER_COMMAND,
    PTP_CONTAINER_DATA, PTP_CONTAINER_RESPONSE, PTP_OC_OPEN_SESSION, PTP_RC_OK,
};
use fujinx::ptp::device::{find_ptp_endpoints, EndpointInfo, InterfaceInfo, PtpEndpoints};
use fujinx::Error;

#[test]
fn builds_containers() {
    let c = build_container(PTP_CONTAINER_COMMAND, 0x1002, 7, &param_bytes(&[1]));
    assert_eq!(c, vec![16, 0, 0, 0, 1, 0, 0x02, 0x10, 7, 0, 0, 0, 1, 0, 0, 0]);
    assert_eq!(param_bytes(&[0x0102_0304, 5]), vec![4, 3, 2, 1, 5, 0, 0, 0]);
}

#[test]
fn response_codes() {
    let r = build_container(PTP_CONTAINER_RESPONSE, PTP_RC_OK, 1, &[]);
    assert_eq!(parse_response_code(&r), Ok(PTP_RC_OK));
    let d = build_container(PTP_CONTAINER_DATA, 0x1001, 1, &[]);
    assert_eq!(parse_response_code(&d), Err(Error::NotResponseContainer(2)));
    assert_eq!(parse_response_code(&r[..11]), Err(Error::ResponseTooShort));
    assert_eq!(check_response(0x1001, PTP_RC_OK), Ok(()));
    assert_eq!(
        check_response(0x1001, 0x2002),
        Err(Error::OperationFailed { operation: 0x1001, response_code: 0x2002 })
    );
}

#[test]
fn replies() {
    let mut both = build_container(PTP_CONTAINER_DATA, 0x1015, 3, &[0xAA, 0xBB]);
    both.extend(build_container(PTP_CONTAINER_RESPONSE, PTP_RC_OK, 3, &[]));
    assert!(is_reply_readable(&both));
    match interpret_reply(&both).unwrap() {
        Reply::Complete(r) => {
            assert_eq!(r.response_code, PTP_RC_OK);
            assert_eq!(r.data, vec![0xAA, 0xBB]);
        }
        Reply::AwaitingResponse(_) => panic!("expected a complete reply"),
    }

    let data_only = build_container(PTP_CONTAINER_DATA, 0x1015, 3, &[0xCC]);
    let data = match interpret_reply(&data_only).unwrap() {
        Reply::AwaitingResponse(d) => d,
        Reply::Complete(_) => panic!("expected to await the response"),
    };
    assert_eq!(data, vec![0xCC]);
    let resp = build_container(PTP_CONTAINER_RESPONSE, 0x2019, 3, &[]);
    let done = finish_reply(data, &resp).unwrap();
    assert_eq!(done.response_code, 0x2019);
    assert_eq!(done.data, vec![0xCC]);

    let event = build_container(4, 0x4002, 0, &[]);
    assert_eq!(interpret_reply(&event).err(), Some(Error::UnexpectedContainerType(4)));
    let mut bad = data_only.clone();
    bad[0] = 11;
    assert!(!is_reply_readable(&bad));
    assert!(!is_reply_readable(&data_only[..8]));

    assert_eq!(container_length(&data_only), Ok(13));
    assert_eq!(container_length(&data_only[..5]), Err(Error::ResponseTooShort));
}

#[test]
fn u32_arrays_and_properties() {
    assert_eq!(parse_u32_array(&[2, 0, 0, 0, 1, 0, 0, 0, 2, 0, 0, 0]), Ok(vec![1, 2]));
    assert_eq!(parse_u32_array(&[2, 0, 0, 0, 1, 0, 0, 0]), Err(Error::UnexpectedEnd));
    assert_eq!(parse_u32_array(&[0, 0]), Err(Error::UnexpectedEnd));
    assert_eq!(prop_u16(0xD185, &[0x34, 0x12, 0xFF]), Ok(0x1234));
    assert_eq!(prop_i16(0xD199, &[0x01, 0x80]), Ok(-32767));
    assert_eq!(prop_u16(0xD199, &[1]), Err(Error::PropertyTooShort { prop_code: 0xD199, len: 1 }));
}

#[test]
fn sessions_and_transactions() {
    assert_eq!(next_transaction_id(1), 2);
    assert_eq!(next_transaction_id(u32::MAX), 0);
    assert_eq!(session_start(PTP_RC_OK), Ok(SessionStart::Open));
    assert_eq!(session_start(0x201E), Ok(SessionStart::ResetAndRetry));
    assert_eq!(
        session_start(0x2003),
        Err(Error::OperationFailed { operation: PTP_OC_OPEN_SESSION, response_code: 0x2003 })
    );
}

#[test]
fn finds_ptp_endpoints() {
    let bulk = |address: u8, direction_in: bool| EndpointInfo { address, direction_in, bulk: true };
    let mass_storage = InterfaceInfo { number: 0, class_code: 8, endpoints: vec![bulk(0x81, true)] };
    let ptp = InterfaceInfo {
        number: 1,
        class_code: 6,
        endpoints: vec![
            bulk(0x82, true),
            bulk(0x03, false),
            EndpointInfo { address: 0x84, direction_in: true, bulk: false },
        ],
    };
    assert_eq!(
        find_ptp_endpoints(&vec![mass_storage.clone(), ptp.clone()]),
        Ok(PtpEndpoints { interface: 1, ep_in: 0x82, ep_out: 0x03 })
    );
    assert_eq!(find_ptp_endpoints(&vec![mass_storage.clone()]), Err(Error::NoPtpInterface));
    let no_out = InterfaceInfo { number: 2, class_code: 6, endpoints: vec![bulk(0x85, true)] };
    assert_eq!(find_ptp_endpoints(&vec![no_out.clone()]), Err(Error::NoBulkOut));
    let no_in = InterfaceInfo { number: 2, class_code: 6, endpoints: vec![bulk(0x05, false)] };
    assert_eq!(find_ptp_endpoints(&vec![no_in]), Err(Error::NoBulkIn));
    assert_eq!(
        find_ptp_endpoints(&vec![ptp, no_out]),
        Ok(PtpEndpoints { interface: 2, ep_in: 0x85, ep_out: 0x03 })
    );
}

#[test]
fn send_chunks() {
    assert_eq!(PTP_SEND_CHUNK, 1024 * 1024);
    assert_eq!(send_chunk_end(0, 10), 10);
    assert_eq!(send_chunk_end(0, 3 * PTP_SEND_CHUNK), PTP_SEND_CHUNK);
    assert_eq!(send_chunk_end(PTP_SEND_CHUNK, PTP_SEND_CHUNK + 5), PTP_SEND_CHUNK + 5);
    assert_eq!(send_chunk_end(5, PTP_SEND_CHUNK + 5), PTP_SEND_CHUNK + 5);
}
