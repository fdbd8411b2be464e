//! Tests of the wire-level message codec.

use frankly_fw_update::Error;
use frankly_fw_update::com::msg::{Msg, MsgData, RequestType, ResponseType, ResultType};

fn check_request_type_convert_to_u16() {
    assert_eq!(RequestType::Ping.to_u16(), 0x0001);
    assert_eq!(RequestType::ResetDevice.to_u16(), 0x0011);
    assert_eq!(RequestType::StartApp.to_u16(), 0x0012);
    assert_eq!(RequestType::DevInfoBootloaderVersion.to_u16(), 0x0101);
    assert_eq!(RequestType::DevInfoBootloaderCRC.to_u16(), 0x0102);
    assert_eq!(RequestType::DevInfoVID.to_u16(), 0x0103);
    assert_eq!(RequestType::DevInfoPID.to_u16(), 0x0104);
    assert_eq!(RequestType::DevInfoPRD.to_u16(), 0x0105);
    assert_eq!(RequestType::DevInfoUID.to_u16(), 0x0106);
    assert_eq!(RequestType::FlashInfoStartAddr.to_u16(), 0x0201);
    assert_eq!(RequestType::FlashInfoPageSize.to_u16(), 0x0202);
    assert_eq!(RequestType::FlashInfoNumPages.to_u16(), 0x0203);
    assert_eq!(RequestType::AppInfoPageIdx.to_u16(), 0x0301);
    assert_eq!(RequestType::AppInfoCRCCalc.to_u16(), 0x0302);
    assert_eq!(RequestType::AppInfoCRCStrd.to_u16(), 0x0303);
    assert_eq!(RequestType::FlashReadWord.to_u16(), 0x0401);
    assert_eq!(RequestType::PageBufferClear.to_u16(), 0x1001);
    assert_eq!(RequestType::PageBufferReadWord.to_u16(), 0x1002);
    assert_eq!(RequestType::PageBufferWriteWord.to_u16(), 0x1003);
    assert_eq!(RequestType::PageBufferCalcCRC.to_u16(), 0x1004);
    assert_eq!(RequestType::PageBufferWriteToFlash.to_u16(), 0x1005);
    assert_eq!(RequestType::FlashWriteErasePage.to_u16(), 0x1101);
    assert_eq!(RequestType::FlashWriteAppCRC.to_u16(), 0x1102);
}

fn check_request_type_convert_from_u16() {
    assert_eq!(RequestType::from_u16(0x0001), RequestType::Ping);
    assert_eq!(RequestType::from_u16(0x0011), RequestType::ResetDevice);
    assert_eq!(RequestType::from_u16(0x0012), RequestType::StartApp);
    assert_eq!(RequestType::from_u16(0x0101), RequestType::DevInfoBootloaderVersion);
    assert_eq!(RequestType::from_u16(0x0102), RequestType::DevInfoBootloaderCRC);
    assert_eq!(RequestType::from_u16(0x0103), RequestType::DevInfoVID);
    assert_eq!(RequestType::from_u16(0x0104), RequestType::DevInfoPID);
    assert_eq!(RequestType::from_u16(0x0105), RequestType::DevInfoPRD);
    assert_eq!(RequestType::from_u16(0x0106), RequestType::DevInfoUID);
    assert_eq!(RequestType::from_u16(0x0201), RequestType::FlashInfoStartAddr);
    assert_eq!(RequestType::from_u16(0x0202), RequestType::FlashInfoPageSize);
    assert_eq!(RequestType::from_u16(0x0203), RequestType::FlashInfoNumPages);
    assert_eq!(RequestType::from_u16(0x0301), RequestType::AppInfoPageIdx);
    assert_eq!(RequestType::from_u16(0x0302), RequestType::AppInfoCRCCalc);
    assert_eq!(RequestType::from_u16(0x0303), RequestType::AppInfoCRCStrd);
    assert_eq!(RequestType::from_u16(0x0401), RequestType::FlashReadWord);
    assert_eq!(RequestType::from_u16(0x1001), RequestType::PageBufferClear);
    assert_eq!(RequestType::from_u16(0x1002), RequestType::PageBufferReadWord);
    assert_eq!(RequestType::from_u16(0x1003), RequestType::PageBufferWriteWord);
    assert_eq!(RequestType::from_u16(0x1004), RequestType::PageBufferCalcCRC);
    assert_eq!(RequestType::from_u16(0x1005), RequestType::PageBufferWriteToFlash);
    assert_eq!(RequestType::from_u16(0x1101), RequestType::FlashWriteErasePage);
    assert_eq!(RequestType::from_u16(0x1102), RequestType::FlashWriteAppCRC);
}

#[test]
fn result_convert_to_u8() {
    assert_eq!(ResultType::NoneCode.to_u8(), 0x00);
    assert_eq!(ResultType::OkCode.to_u8(), 0x01);
    assert_eq!(ResultType::Error.to_u8(), 0xFE);
    assert_eq!(ResultType::ErrUnknownReq.to_u8(), 0xFD);
    assert_eq!(ResultType::ErrNotSupported.to_u8(), 0xFC);
    assert_eq!(ResultType::ErrCRCInvld.to_u8(), 0xFB);
    assert_eq!(ResultType::AckPageFull.to_u8(), 0xFA);
    assert_eq!(ResultType::ErrPageFull.to_u8(), 0xF9);
    assert_eq!(ResultType::ErrInvldArg.to_u8(), 0xF8);
}

#[test]
fn result_convert_from_u8() {
    assert_eq!(ResultType::from_u8(0x00), ResultType::NoneCode);
    assert_eq!(ResultType::from_u8(0x01), ResultType::OkCode);
    assert_eq!(ResultType::from_u8(0xFE), ResultType::Error);
    assert_eq!(ResultType::from_u8(0xFD), ResultType::ErrUnknownReq);
    assert_eq!(ResultType::from_u8(0xFC), ResultType::ErrNotSupported);
    assert_eq!(ResultType::from_u8(0xFB), ResultType::ErrCRCInvld);
    assert_eq!(ResultType::from_u8(0xFA), ResultType::AckPageFull);
    assert_eq!(ResultType::from_u8(0xF9), ResultType::ErrPageFull);
    assert_eq!(ResultType::from_u8(0xF8), ResultType::ErrInvldArg);
}

#[test]
fn result_is_ok() {
    assert_eq!(ResultType::NoneCode.is_ok(), true);
    assert_eq!(ResultType::OkCode.is_ok(), true);
    assert_eq!(ResultType::Error.is_ok(), false);
    assert_eq!(ResultType::ErrUnknownReq.is_ok(), false);
    assert_eq!(ResultType::ErrNotSupported.is_ok(), false);
    assert_eq!(ResultType::ErrCRCInvld.is_ok(), false);
    assert_eq!(ResultType::AckPageFull.is_ok(), false);
    assert_eq!(ResultType::ErrPageFull.is_ok(), false);
    assert_eq!(ResultType::ErrInvldArg.is_ok(), false);
}

#[test]
fn result_is_error() {
    assert_eq!(ResultType::NoneCode.is_error(), false);
    assert_eq!(ResultType::OkCode.is_error(), false);
    assert_eq!(ResultType::Error.is_error(), true);
    assert_eq!(ResultType::ErrUnknownReq.is_error(), true);
    assert_eq!(ResultType::ErrNotSupported.is_error(), true);
    assert_eq!(ResultType::ErrCRCInvld.is_error(), true);
    assert_eq!(ResultType::AckPageFull.is_error(), false);
    assert_eq!(ResultType::ErrPageFull.is_error(), true);
    assert_eq!(ResultType::ErrInvldArg.is_error(), true);
}

#[test]
fn response_convert_to_u8() {
    assert_eq!(ResponseType::RespNone.to_u8(), 0x00);
    assert_eq!(ResponseType::RespAck.to_u8(), 0x01);
    assert_eq!(ResponseType::RespErr.to_u8(), 0xFE);
    assert_eq!(ResponseType::RespUnknownReq.to_u8(), 0xFD);
    assert_eq!(ResponseType::RespErrNotSupported.to_u8(), 0xFC);
    assert_eq!(ResponseType::RespErrCRCInvld.to_u8(), 0xFB);
    assert_eq!(ResponseType::RespAckPageFull.to_u8(), 0xFA);
    assert_eq!(ResponseType::RespErrPageFull.to_u8(), 0xF9);
    assert_eq!(ResponseType::RespErrInvldArg.to_u8(), 0xF8);
}

#[test]
fn response_convert_from_u8() {
    assert_eq!(ResponseType::from_u8(0x00), ResponseType::RespNone);
    assert_eq!(ResponseType::from_u8(0x01), ResponseType::RespAck);
    assert_eq!(ResponseType::from_u8(0xFE), ResponseType::RespErr);
    assert_eq!(ResponseType::from_u8(0xFD), ResponseType::RespUnknownReq);
    assert_eq!(ResponseType::from_u8(0xFC), ResponseType::RespErrNotSupported);
    assert_eq!(ResponseType::from_u8(0xFB), ResponseType::RespErrCRCInvld);
    assert_eq!(ResponseType::from_u8(0xFA), ResponseType::RespAckPageFull);
    assert_eq!(ResponseType::from_u8(0xF9), ResponseType::RespErrPageFull);
    assert_eq!(ResponseType::from_u8(0xF8), ResponseType::RespErrInvldArg);
}

fn check_msg_data_new() {
    assert_eq!(*MsgData::new().get_array(), [0; 4]);
}

fn check_msg_data_from_array() {
    assert_eq!(*MsgData::from_array(&[1, 2, 3, 4]).get_array(), [1, 2, 3, 4]);
}

fn check_msg_data_from_word() {
    assert_eq!(*MsgData::from_word(0x01020304).get_array(), [4, 3, 2, 1]);
}

fn check_msg_data_to_word() {
    assert_eq!(MsgData::from_array(&[4, 3, 2, 1]).to_word(), 0x01020304);
}

fn check_msg_data_get_byte() {
    assert_eq!(MsgData::from_array(&[1, 2, 3, 4]).get_byte(0), 1);
    assert_eq!(MsgData::from_array(&[1, 2, 3, 4]).get_byte(1), 2);
    assert_eq!(MsgData::from_array(&[1, 2, 3, 4]).get_byte(2), 3);
    assert_eq!(MsgData::from_array(&[1, 2, 3, 4]).get_byte(3), 4);
}

fn check_msg_new() {
    let msg = Msg::new(
        RequestType::Ping,
        ResultType::OkCode,
        5,
        &MsgData::from_array(&[0x01, 0x02, 0x03, 0x04]),
    );
    assert_eq!(msg.request, RequestType::Ping);
    assert_eq!(msg.result, ResultType::OkCode);
    assert_eq!(msg.packet_id, 5);
    assert_eq!(*msg.data.get_array(), [0x01, 0x02, 0x03, 0x04]);
}

fn check_msg_from_raw_data_array() {
    let msg = Msg::from_raw_data_array(&[0x03, 0x01, 0x01, 0x05, 0x01, 0x02, 0x03, 0x04]).unwrap();
    assert_eq!(msg.request, RequestType::DevInfoVID);
    assert_eq!(msg.result, ResultType::OkCode);
    assert_eq!(msg.packet_id, 5);
    assert_eq!(*msg.data.get_array(), [0x01, 0x02, 0x03, 0x04]);
}

fn check_msg_to_raw_data_array() {
    let msg = Msg::new(
        RequestType::DevInfoVID,
        ResultType::OkCode,
        5,
        &MsgData::from_array(&[0x01, 0x02, 0x03, 0x04]),
    );
    assert_eq!(msg.to_raw_data_array(), [0x03, 0x01, 0x01, 0x05, 0x01, 0x02, 0x03, 0x04]);
}

#[test]
fn msg_new_std_request() {
    let msg = Msg::new_std_request(RequestType::Ping);
    assert_eq!(msg.request, RequestType::Ping);
    assert_eq!(msg.result, ResultType::NoneCode);
    assert_eq!(msg.packet_id, 0);
    assert_eq!(*msg.data.get_array(), [0; 4]);
}

#[test]
fn msg_is_response_ok_ok() {
    let request = Msg::new_std_request(RequestType::Ping);

    let response = Msg::new(
        RequestType::Ping,
        ResultType::OkCode,
        0,
        &MsgData::from_array(&[0x01, 0x02, 0x03, 0x04]),
    );

    assert_eq!(request.is_response_ok(&response), Ok(()));
}

#[test]
fn msg_is_response_ok_error_result() {
    let request = Msg::new_std_request(RequestType::Ping);

    let response = Msg::new(RequestType::Ping, ResultType::ErrNotSupported, 0, &MsgData::new());

    match request.is_response_ok(&response) {
        Ok(_) => panic!("Response error expected!"),
        Err(e) => match e {
            Error::ResultError(_) => {}
            _ => panic!("Unexpected error type!"),
        },
    }
}

#[test]
fn msg_is_response_ok_msg_corrupted_packet_id() {
    let request = Msg::new_std_request(RequestType::Ping);
    let response = Msg::new(RequestType::Ping, ResultType::OkCode, 13, &MsgData::new());

    match request.is_response_ok(&response) {
        Ok(_) => panic!("Response error expected!"),
        Err(e) => match e {
            Error::MsgCorruption(_) => {}
            _ => panic!("Unexpected error type!"),
        },
    }
}

#[test]
fn msg_is_response_ok_msg_corrupted_request() {
    let request = Msg::new_std_request(RequestType::Ping);
    let response = Msg::new(RequestType::DevInfoUID, ResultType::OkCode, 0, &MsgData::new());

    match request.is_response_ok(&response) {
        Ok(_) => panic!("Response error expected!"),
        Err(e) => match e {
            Error::MsgCorruption(_) => {}
            _ => panic!("Unexpected error type!"),
        },
    }
}

#[test]
fn msg_is_response_data_ok() {
    let mut request = Msg::new_std_request(RequestType::Ping);
    let mut response = Msg::new_std_request(RequestType::Ping);

    request.data = MsgData::from_word(0xDEADBEEF);
    response.data = MsgData::from_word(0xDEADBEEF);

    assert!(request.is_response_data_ok(&response).is_ok());
}

#[test]
fn msg_is_response_data_ok_err() {
    let mut request = Msg::new_std_request(RequestType::Ping);
    let mut response = Msg::new_std_request(RequestType::Ping);

    request.data = MsgData::from_word(0xDEADBEEF);
    response.data = MsgData::from_word(0xDEADBEEA);

    assert!(request.is_response_data_ok(&response).is_err());
}

#[test]
fn msg_encode_endianness() {
    // Ping = 0x0001, Ok = 0x01, packet id 5, payload 0x01020304, little-endian
    let msg = Msg::new(RequestType::Ping, ResultType::OkCode, 5, &MsgData::from_word(0x01020304));
    assert_eq!(msg.to_raw_data_array(), [0x01, 0x00, 0x01, 0x05, 0x04, 0x03, 0x02, 0x01]);
}

#[test]
fn msg_frame_round_trip_every_request() {
    let requests = [
        RequestType::Ping,
        RequestType::ResetDevice,
        RequestType::StartApp,
        RequestType::DevInfoBootloaderVersion,
        RequestType::DevInfoBootloaderCRC,
        RequestType::DevInfoVID,
        RequestType::DevInfoPID,
        RequestType::DevInfoPRD,
        RequestType::DevInfoUID,
        RequestType::DevInfoUID2,
        RequestType::DevInfoUID3,
        RequestType::DevInfoUID4,
        RequestType::FlashInfoStartAddr,
        RequestType::FlashInfoPageSize,
        RequestType::FlashInfoNumPages,
        RequestType::AppInfoPageIdx,
        RequestType::AppInfoCRCCalc,
        RequestType::AppInfoCRCStrd,
        RequestType::FlashReadWord,
        RequestType::PageBufferClear,
        RequestType::PageBufferReadWord,
        RequestType::PageBufferWriteWord,
        RequestType::PageBufferCalcCRC,
        RequestType::PageBufferWriteToFlash,
        RequestType::FlashWriteErasePage,
        RequestType::FlashWriteAppCRC,
    ];
    let results = [
        ResultType::NoneCode,
        ResultType::OkCode,
        ResultType::Error,
        ResultType::ErrUnknownReq,
        ResultType::ErrNotSupported,
        ResultType::ErrCRCInvld,
        ResultType::AckPageFull,
        ResultType::ErrPageFull,
        ResultType::ErrInvldArg,
    ];
    for req in requests.iter() {
        for res in results.iter() {
            let msg = Msg::new(*req, *res, 0x5A, &MsgData::from_word(0xCAFEF00D));
            let raw = msg.to_raw_data_array();
            assert_eq!(raw.len(), 8);
            let back = Msg::from_raw_data_array(&raw).unwrap();
            assert_eq!(back.request, *req);
            assert_eq!(back.result, *res);
            assert_eq!(back.packet_id, 0x5A);
            assert_eq!(back.data.to_word(), 0xCAFEF00D);
        }
    }
}

#[test]
fn msg_decode_unknown_codes_rejected() {
    // Unknown request code 0x0002
    let r = Msg::from_raw_data_array(&[0x02, 0x00, 0x01, 0x00, 0, 0, 0, 0]);
    assert!(matches!(r, Err(Error::MsgCorruption(_))));
    // Unknown result code 0x55
    let r = Msg::from_raw_data_array(&[0x01, 0x00, 0x55, 0x00, 0, 0, 0, 0]);
    assert!(matches!(r, Err(Error::MsgCorruption(_))));
}

#[test]
fn msg_ping_exchange() {
    // The host's ping frame is eight bytes: Ping, result None, packet id 0,
    // zero payload
    let ping = Msg::new_std_request(RequestType::Ping);
    assert_eq!(ping.to_raw_data_array(), [0x01, 0x00, 0x00, 0x00, 0x00, 0x00, 0x00, 0x00]);

    // The device echoes the request with result Ok and its version word
    let raw_response: [u8; 8] = [0x01, 0x00, 0x01, 0x00, 0x01, 0x02, 0x03, 0x00];
    let response = Msg::from_raw_data_array(&raw_response).unwrap();
    assert!(ping.is_response_ok(&response).is_ok());
    assert_eq!(response.get_data().to_word(), 0x00030201);
}

#[test]
fn request_type_convert_to_u16() {
    check_request_type_convert_to_u16();
}

#[test]
fn msg_request_type_convert_to_u16() {
    check_request_type_convert_to_u16();
}

#[test]
fn request_type_convert_from_u16() {
    check_request_type_convert_from_u16();
}

#[test]
fn msg_request_type_convert_from_u16() {
    check_request_type_convert_from_u16();
}

#[test]
fn msg_data_new() {
    check_msg_data_new();
}

#[test]
fn msg_msg_data_new() {
    check_msg_data_new();
}

#[test]
fn msg_data_from_array() {
    check_msg_data_from_array();
}

#[test]
fn msg_msg_data_from_array() {
    check_msg_data_from_array();
}

#[test]
fn msg_data_from_word() {
    check_msg_data_from_word();
}

#[test]
fn msg_msg_data_from_word() {
    check_msg_data_from_word();
}

#[test]
fn msg_data_to_word() {
    check_msg_data_to_word();
}

#[test]
fn msg_msg_data_to_word() {
    check_msg_data_to_word();
}

#[test]
fn msg_data_get_byte() {
    check_msg_data_get_byte();
}

#[test]
fn msg_msg_data_get_byte() {
    check_msg_data_get_byte();
}

#[test]
fn msg_new() {
    check_msg_new();
}

#[test]
fn msg_msg_new() {
    check_msg_new();
}

#[test]
fn msg_from_raw_data_array() {
    check_msg_from_raw_data_array();
}

#[test]
fn msg_msg_from_raw_data_array() {
    check_msg_from_raw_data_array();
}

#[test]
fn msg_to_raw_data_array() {
    check_msg_to_raw_data_array();
}

#[test]
fn msg_msg_to_raw_data_array() {
    check_msg_to_raw_data_array();
}
