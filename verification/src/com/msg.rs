//! Wire-level message codec.
//!
//! Every exchange with the bootloader is one fixed 8-byte frame holding a
//! 16-bit request code (little-endian), an 8-bit result code, an 8-bit packet
//! id and a 32-bit payload word (little-endian). The numeric code values are
//! part of the wire contract and are preserved bit-exact.

use crate::Error;
use vstd::prelude::*;

verus! {

// Request Type -----------------------------------------------------------------------------------

/// Request codes understood by the bootloader.
///
/// The numeric value of each request is given by [`RequestType::to_u16`] and
/// is part of the wire contract.
#[derive(Debug, PartialEq, Eq, Clone, Copy, Structural)]
pub enum RequestType {
    /// Ping device; the response carries the bootloader version
    Ping,
    /// Reset the device (hardware reset)
    ResetDevice,
    /// Start the application and exit the bootloader
    StartApp,
    /// Read the bootloader version
    DevInfoBootloaderVersion,
    /// Read the CRC of the bootloader flash area
    DevInfoBootloaderCRC,
    /// Read the vendor id
    DevInfoVID,
    /// Read the product id
    DevInfoPID,
    /// Read the production date
    DevInfoPRD,
    /// Read the first word of the 128-bit unique device id
    DevInfoUID,
    /// Read the second word of the unique device id
    DevInfoUID2,
    /// Read the third word of the unique device id
    DevInfoUID3,
    /// Read the fourth word of the unique device id
    DevInfoUID4,
    /// Read the start address of the flash area
    FlashInfoStartAddr,
    /// Read the size in bytes of one flash page
    FlashInfoPageSize,
    /// Read the number of flash pages (bootloader area included)
    FlashInfoNumPages,
    /// Read the page index where the application area starts
    AppInfoPageIdx,
    /// Read the CRC calculated over the application flash area
    AppInfoCRCCalc,
    /// Read the stored CRC used for safe startup
    AppInfoCRCStrd,
    /// Read a word from flash
    FlashReadWord,
    /// Clear the page buffer (RAM)
    PageBufferClear,
    /// Read a word from the page buffer (RAM)
    PageBufferReadWord,
    /// Write a word into the page buffer (RAM)
    PageBufferWriteWord,
    /// Calculate the CRC over the page buffer
    PageBufferCalcCRC,
    /// Write the page buffer to the given flash page
    PageBufferWriteToFlash,
    /// Erase a flash page
    FlashWriteErasePage,
    /// Write the application CRC to flash
    FlashWriteAppCRC,
}

/// Numeric wire code of a request.
pub open spec fn request_code(r: RequestType) -> u16 {
    match r {
        RequestType::Ping => 0x0001,
        RequestType::ResetDevice => 0x0011,
        RequestType::StartApp => 0x0012,
        RequestType::DevInfoBootloaderVersion => 0x0101,
        RequestType::DevInfoBootloaderCRC => 0x0102,
        RequestType::DevInfoVID => 0x0103,
        RequestType::DevInfoPID => 0x0104,
        RequestType::DevInfoPRD => 0x0105,
        RequestType::DevInfoUID => 0x0106,
        RequestType::DevInfoUID2 => 0x0107,
        RequestType::DevInfoUID3 => 0x0108,
        RequestType::DevInfoUID4 => 0x0109,
        RequestType::FlashInfoStartAddr => 0x0201,
        RequestType::FlashInfoPageSize => 0x0202,
        RequestType::FlashInfoNumPages => 0x0203,
        RequestType::AppInfoPageIdx => 0x0301,
        RequestType::AppInfoCRCCalc => 0x0302,
        RequestType::AppInfoCRCStrd => 0x0303,
        RequestType::FlashReadWord => 0x0401,
        RequestType::PageBufferClear => 0x1001,
        RequestType::PageBufferReadWord => 0x1002,
        RequestType::PageBufferWriteWord => 0x1003,
        RequestType::PageBufferCalcCRC => 0x1004,
        RequestType::PageBufferWriteToFlash => 0x1005,
        RequestType::FlashWriteErasePage => 0x1101,
        RequestType::FlashWriteAppCRC => 0x1102,
    }
}

/// The request a numeric wire code stands for; `None` for an unknown code.
pub open spec fn request_of_code(value: u16) -> Option<RequestType> {
    match value {
        0x0001u16 => Some(RequestType::Ping),
        0x0011u16 => Some(RequestType::ResetDevice),
        0x0012u16 => Some(RequestType::StartApp),
        0x0101u16 => Some(RequestType::DevInfoBootloaderVersion),
        0x0102u16 => Some(RequestType::DevInfoBootloaderCRC),
        0x0103u16 => Some(RequestType::DevInfoVID),
        0x0104u16 => Some(RequestType::DevInfoPID),
        0x0105u16 => Some(RequestType::DevInfoPRD),
        0x0106u16 => Some(RequestType::DevInfoUID),
        0x0107u16 => Some(RequestType::DevInfoUID2),
        0x0108u16 => Some(RequestType::DevInfoUID3),
        0x0109u16 => Some(RequestType::DevInfoUID4),
        0x0201u16 => Some(RequestType::FlashInfoStartAddr),
        0x0202u16 => Some(RequestType::FlashInfoPageSize),
        0x0203u16 => Some(RequestType::FlashInfoNumPages),
        0x0301u16 => Some(RequestType::AppInfoPageIdx),
        0x0302u16 => Some(RequestType::AppInfoCRCCalc),
        0x0303u16 => Some(RequestType::AppInfoCRCStrd),
        0x0401u16 => Some(RequestType::FlashReadWord),
        0x1001u16 => Some(RequestType::PageBufferClear),
        0x1002u16 => Some(RequestType::PageBufferReadWord),
        0x1003u16 => Some(RequestType::PageBufferWriteWord),
        0x1004u16 => Some(RequestType::PageBufferCalcCRC),
        0x1005u16 => Some(RequestType::PageBufferWriteToFlash),
        0x1101u16 => Some(RequestType::FlashWriteErasePage),
        0x1102u16 => Some(RequestType::FlashWriteAppCRC),
        _ => None,
    }
}

/// Every request's wire code decodes back to that request.
pub proof fn lemma_request_code_round_trip(r: RequestType)
    ensures
        request_of_code(request_code(r)) == Some(r),
{
}

impl RequestType {
    /// Decode a wire code; `None` for a code outside the closed enumeration.
    pub fn try_from_u16(value: u16) -> (r: Option<RequestType>)
        ensures
            r == request_of_code(value),
    {
        match value {
            0x0001 => Some(RequestType::Ping),
            0x0011 => Some(RequestType::ResetDevice),
            0x0012 => Some(RequestType::StartApp),
            0x0101 => Some(RequestType::DevInfoBootloaderVersion),
            0x0102 => Some(RequestType::DevInfoBootloaderCRC),
            0x0103 => Some(RequestType::DevInfoVID),
            0x0104 => Some(RequestType::DevInfoPID),
            0x0105 => Some(RequestType::DevInfoPRD),
            0x0106 => Some(RequestType::DevInfoUID),
            0x0107 => Some(RequestType::DevInfoUID2),
            0x0108 => Some(RequestType::DevInfoUID3),
            0x0109 => Some(RequestType::DevInfoUID4),
            0x0201 => Some(RequestType::FlashInfoStartAddr),
            0x0202 => Some(RequestType::FlashInfoPageSize),
            0x0203 => Some(RequestType::FlashInfoNumPages),
            0x0301 => Some(RequestType::AppInfoPageIdx),
            0x0302 => Some(RequestType::AppInfoCRCCalc),
            0x0303 => Some(RequestType::AppInfoCRCStrd),
            0x0401 => Some(RequestType::FlashReadWord),
            0x1001 => Some(RequestType::PageBufferClear),
            0x1002 => Some(RequestType::PageBufferReadWord),
            0x1003 => Some(RequestType::PageBufferWriteWord),
            0x1004 => Some(RequestType::PageBufferCalcCRC),
            0x1005 => Some(RequestType::PageBufferWriteToFlash),
            0x1101 => Some(RequestType::FlashWriteErasePage),
            0x1102 => Some(RequestType::FlashWriteAppCRC),
            _ => None,
        }
    }

    /// Decode a wire code that is known to be part of the enumeration.
    pub fn from_u16(value: u16) -> (r: RequestType)
        requires
            request_of_code(value) is Some,
        ensures
            Some(r) == request_of_code(value),
    {
        match RequestType::try_from_u16(value) {
            Some(r) => r,
            None => vstd::pervasive::unreached(),
        }
    }

    /// Numeric wire code of this request.
    pub fn to_u16(&self) -> (r: u16)
        ensures
            r == request_code(*self),
    {
        match self {
            RequestType::Ping => 0x0001,
            RequestType::ResetDevice => 0x0011,
            RequestType::StartApp => 0x0012,
            RequestType::DevInfoBootloaderVersion => 0x0101,
            RequestType::DevInfoBootloaderCRC => 0x0102,
            RequestType::DevInfoVID => 0x0103,
            RequestType::DevInfoPID => 0x0104,
            RequestType::DevInfoPRD => 0x0105,
            RequestType::DevInfoUID => 0x0106,
            RequestType::DevInfoUID2 => 0x0107,
            RequestType::DevInfoUID3 => 0x0108,
            RequestType::DevInfoUID4 => 0x0109,
            RequestType::FlashInfoStartAddr => 0x0201,
            RequestType::FlashInfoPageSize => 0x0202,
            RequestType::FlashInfoNumPages => 0x0203,
            RequestType::AppInfoPageIdx => 0x0301,
            RequestType::AppInfoCRCCalc => 0x0302,
            RequestType::AppInfoCRCStrd => 0x0303,
            RequestType::FlashReadWord => 0x0401,
            RequestType::PageBufferClear => 0x1001,
            RequestType::PageBufferReadWord => 0x1002,
            RequestType::PageBufferWriteWord => 0x1003,
            RequestType::PageBufferCalcCRC => 0x1004,
            RequestType::PageBufferWriteToFlash => 0x1005,
            RequestType::FlashWriteErasePage => 0x1101,
            RequestType::FlashWriteAppCRC => 0x1102,
        }
    }
}

// Result types -----------------------------------------------------------------------------------

/// Result codes a response can carry.
///
/// `None` and `Ok` count as success for response validation; `AckPageFull` is
/// an acknowledgement that the page buffer is full, and the remaining codes
/// report specific failures.
#[derive(Debug, PartialEq, Eq, Clone, Copy, Structural)]
pub enum ResultType {
    /// No result / not specified
    NoneCode,
    /// Message was processed successfully
    OkCode,
    /// General error
    Error,
    /// Unknown request type
    ErrUnknownReq,
    /// Command known but not supported
    ErrNotSupported,
    /// CRC check failed
    ErrCRCInvld,
    /// Acknowledge with the info that the page buffer is full
    AckPageFull,
    /// Word not writable, page buffer is full
    ErrPageFull,
    /// Invalid argument (out of range, ...)
    ErrInvldArg,
}

/// Numeric wire code of a result.
pub open spec fn result_code(r: ResultType) -> u8 {
    match r {
        ResultType::NoneCode => 0x00,
        ResultType::OkCode => 0x01,
        ResultType::Error => 0xFE,
        ResultType::ErrUnknownReq => 0xFD,
        ResultType::ErrNotSupported => 0xFC,
        ResultType::ErrCRCInvld => 0xFB,
        ResultType::AckPageFull => 0xFA,
        ResultType::ErrPageFull => 0xF9,
        ResultType::ErrInvldArg => 0xF8,
    }
}

/// The result a numeric wire code stands for; `None` for an unknown code.
pub open spec fn result_of_code(value: u8) -> Option<ResultType> {
    match value {
        0x00u8 => Some(ResultType::NoneCode),
        0x01u8 => Some(ResultType::OkCode),
        0xFEu8 => Some(ResultType::Error),
        0xFDu8 => Some(ResultType::ErrUnknownReq),
        0xFCu8 => Some(ResultType::ErrNotSupported),
        0xFBu8 => Some(ResultType::ErrCRCInvld),
        0xFAu8 => Some(ResultType::AckPageFull),
        0xF9u8 => Some(ResultType::ErrPageFull),
        0xF8u8 => Some(ResultType::ErrInvldArg),
        _ => None,
    }
}

/// A result counts as success exactly when it is `None` or `Ok`.
pub open spec fn result_is_success(r: ResultType) -> bool {
    r == ResultType::NoneCode || r == ResultType::OkCode
}

/// A result counts as an error exactly when it is one of the failure codes.
pub open spec fn result_is_failure(r: ResultType) -> bool {
    r == ResultType::Error || r == ResultType::ErrUnknownReq || r == ResultType::ErrNotSupported
        || r == ResultType::ErrCRCInvld || r == ResultType::ErrPageFull || r
        == ResultType::ErrInvldArg
}

/// Every result's wire code decodes back to that result.
pub proof fn lemma_result_code_round_trip(r: ResultType)
    ensures
        result_of_code(result_code(r)) == Some(r),
{
}

impl ResultType {
    /// Numeric wire code of this result.
    pub fn to_u8(&self) -> (r: u8)
        ensures
            r == result_code(*self),
    {
        match self {
            ResultType::NoneCode => 0x00,
            ResultType::OkCode => 0x01,
            ResultType::Error => 0xFE,
            ResultType::ErrUnknownReq => 0xFD,
            ResultType::ErrNotSupported => 0xFC,
            ResultType::ErrCRCInvld => 0xFB,
            ResultType::AckPageFull => 0xFA,
            ResultType::ErrPageFull => 0xF9,
            ResultType::ErrInvldArg => 0xF8,
        }
    }

    /// Decode a wire code; `None` for a code outside the closed enumeration.
    pub fn try_from_u8(value: u8) -> (r: Option<ResultType>)
        ensures
            r == result_of_code(value),
    {
        match value {
            0x00 => Some(ResultType::NoneCode),
            0x01 => Some(ResultType::OkCode),
            0xFE => Some(ResultType::Error),
            0xFD => Some(ResultType::ErrUnknownReq),
            0xFC => Some(ResultType::ErrNotSupported),
            0xFB => Some(ResultType::ErrCRCInvld),
            0xFA => Some(ResultType::AckPageFull),
            0xF9 => Some(ResultType::ErrPageFull),
            0xF8 => Some(ResultType::ErrInvldArg),
            _ => None,
        }
    }

    /// Decode a wire code that is known to be part of the enumeration.
    pub fn from_u8(value: u8) -> (r: ResultType)
        requires
            result_of_code(value) is Some,
        ensures
            Some(r) == result_of_code(value),
    {
        match ResultType::try_from_u8(value) {
            Some(r) => r,
            None => vstd::pervasive::unreached(),
        }
    }

    /// True exactly for the success results `None` and `Ok`.
    pub fn is_ok(&self) -> (r: bool)
        ensures
            r == result_is_success(*self),
    {
        match self {
            ResultType::NoneCode => true,
            ResultType::OkCode => true,
            _ => false,
        }
    }

    /// True exactly for the failure codes.
    pub fn is_error(&self) -> (r: bool)
        ensures
            r == result_is_failure(*self),
    {
        match self {
            ResultType::Error => true,
            ResultType::ErrUnknownReq => true,
            ResultType::ErrNotSupported => true,
            ResultType::ErrCRCInvld => true,
            ResultType::ErrPageFull => true,
            ResultType::ErrInvldArg => true,
            _ => false,
        }
    }
}

// Node id ------------------------------------------------------------------------------------------

/// Address of a message on a multi-drop link: everyone, or one node.
#[derive(Debug, PartialEq, Eq, Structural, Copy, Clone)]
pub enum NodeID {
    /// All nodes of the link.
    Broadcast,
    /// One specific node.
    Specific(u8),
}

// Response types -----------------------------------------------------------------------------------

/// Raw response codes under their plain wire names; same code values as
/// [`ResultType`], kept for the older device layer.
#[derive(Debug, PartialEq, Eq, Structural, Copy, Clone)]
pub enum ResponseType {
    /// Unused / ignored
    RespNone,
    /// Acknowledge
    RespAck,
    /// General error
    RespErr,
    /// Unknown request type
    RespUnknownReq,
    /// Command known but not supported
    RespErrNotSupported,
    /// CRC check failed
    RespErrCRCInvld,
    /// Acknowledge with the info that the page buffer is full
    RespAckPageFull,
    /// Word not writable, page buffer is full
    RespErrPageFull,
    /// Invalid argument (out of range, ...)
    RespErrInvldArg,
}

/// Numeric wire code of a raw response.
pub open spec fn response_code(r: ResponseType) -> u8 {
    match r {
        ResponseType::RespNone => 0x00,
        ResponseType::RespAck => 0x01,
        ResponseType::RespErr => 0xFE,
        ResponseType::RespUnknownReq => 0xFD,
        ResponseType::RespErrNotSupported => 0xFC,
        ResponseType::RespErrCRCInvld => 0xFB,
        ResponseType::RespAckPageFull => 0xFA,
        ResponseType::RespErrPageFull => 0xF9,
        ResponseType::RespErrInvldArg => 0xF8,
    }
}

/// The raw response a numeric wire code stands for; `None` for an unknown
/// code.
pub open spec fn response_of_code(value: u8) -> Option<ResponseType> {
    match value {
        0x00u8 => Some(ResponseType::RespNone),
        0x01u8 => Some(ResponseType::RespAck),
        0xFEu8 => Some(ResponseType::RespErr),
        0xFDu8 => Some(ResponseType::RespUnknownReq),
        0xFCu8 => Some(ResponseType::RespErrNotSupported),
        0xFBu8 => Some(ResponseType::RespErrCRCInvld),
        0xFAu8 => Some(ResponseType::RespAckPageFull),
        0xF9u8 => Some(ResponseType::RespErrPageFull),
        0xF8u8 => Some(ResponseType::RespErrInvldArg),
        _ => None,
    }
}

/// Every raw response's wire code decodes back to that response.
pub proof fn lemma_response_code_round_trip(r: ResponseType)
    ensures
        response_of_code(response_code(r)) == Some(r),
{
}

impl ResponseType {
    /// Numeric wire code of this raw response.
    pub fn to_u8(&self) -> (r: u8)
        ensures
            r == response_code(*self),
    {
        match self {
            ResponseType::RespNone => 0x00,
            ResponseType::RespAck => 0x01,
            ResponseType::RespErr => 0xFE,
            ResponseType::RespUnknownReq => 0xFD,
            ResponseType::RespErrNotSupported => 0xFC,
            ResponseType::RespErrCRCInvld => 0xFB,
            ResponseType::RespAckPageFull => 0xFA,
            ResponseType::RespErrPageFull => 0xF9,
            ResponseType::RespErrInvldArg => 0xF8,
        }
    }

    /// Decode a wire code; `None` for a code outside the closed enumeration.
    pub fn try_from_u8(value: u8) -> (r: Option<ResponseType>)
        ensures
            r == response_of_code(value),
    {
        match value {
            0x00 => Some(ResponseType::RespNone),
            0x01 => Some(ResponseType::RespAck),
            0xFE => Some(ResponseType::RespErr),
            0xFD => Some(ResponseType::RespUnknownReq),
            0xFC => Some(ResponseType::RespErrNotSupported),
            0xFB => Some(ResponseType::RespErrCRCInvld),
            0xFA => Some(ResponseType::RespAckPageFull),
            0xF9 => Some(ResponseType::RespErrPageFull),
            0xF8 => Some(ResponseType::RespErrInvldArg),
            _ => None,
        }
    }

    /// Decode a wire code that is known to be part of the enumeration.
    pub fn from_u8(value: u8) -> (r: ResponseType)
        requires
            response_of_code(value) is Some,
        ensures
            Some(r) == response_of_code(value),
    {
        match ResponseType::try_from_u8(value) {
            Some(r) => r,
            None => vstd::pervasive::unreached(),
        }
    }
}

// Message Data -----------------------------------------------------------------------------------

/// Raw data type of the message payload.
pub type MsgDataRaw = [u8; 4];

/// The 32-bit word built from four bytes in little-endian order.
pub open spec fn word_of_bytes(b: Seq<u8>) -> u32
    recommends
        b.len() == 4,
{
    (b[0] + b[1] * 0x100 + b[2] * 0x10000 + b[3] * 0x1000000) as u32
}

/// Byte `i` of a 32-bit word in little-endian order.
pub open spec fn byte_of_word(w: u32, i: int) -> u8
    recommends
        0 <= i < 4,
{
    (w / if i == 0 {
        0x1u32
    } else if i == 1 {
        0x100u32
    } else if i == 2 {
        0x10000u32
    } else {
        0x1000000u32
    } % 0x100) as u8
}

/// Payload of a message: one 32-bit word, kept as four bytes in wire order
/// (little-endian) and accessible as a byte array or as a single word.
#[derive(Debug, Clone, Copy, PartialEq)]
pub struct MsgData {
    data: MsgDataRaw,
}

impl MsgData {
    /// The four payload bytes in wire order.
    pub closed spec fn bytes(self) -> Seq<u8> {
        self.data@
    }

    /// The payload as a 32-bit word.
    pub open spec fn word(self) -> u32 {
        word_of_bytes(self.bytes())
    }

    /// Payloads always hold exactly four bytes.
    pub proof fn lemma_bytes_len(self)
        ensures
            self.bytes().len() == 4,
    {
    }

    /// A zeroed payload.
    pub fn new() -> (r: MsgData)
        ensures
            r.bytes() =~= seq![0u8, 0u8, 0u8, 0u8],
    {
        MsgData { data: [0; 4] }
    }

    /// Payload from four bytes already in wire order.
    pub fn from_array(data: &MsgDataRaw) -> (r: MsgData)
        ensures
            r.bytes() == data@,
    {
        MsgData { data: *data }
    }

    /// Payload from a 32-bit word, stored little-endian.
    pub fn from_word(value: u32) -> (r: MsgData)
        ensures
            r.word() == value,
            r.bytes().len() == 4,
            r.bytes()[0] == value % 0x100,
            r.bytes()[1] == (value / 0x100) % 0x100,
            r.bytes()[2] == (value / 0x10000) % 0x100,
            r.bytes()[3] == (value / 0x1000000) % 0x100,
    {
        let b0 = (value & 0x000000FF) as u8;
        let b1 = ((value & 0x0000FF00) >> 8) as u8;
        let b2 = ((value & 0x00FF0000) >> 16) as u8;
        let b3 = ((value & 0xFF000000) >> 24) as u8;
        proof {
            lemma_word_bytes(value, b0, b1, b2, b3);
        }
        MsgData { data: [b0, b1, b2, b3] }
    }

    /// The payload as a 32-bit word (little-endian).
    pub fn to_word(&self) -> (r: u32)
        ensures
            r == self.word(),
    {
        let b0 = self.data[0];
        let b1 = self.data[1];
        let b2 = self.data[2];
        let b3 = self.data[3];
        let r = (b0 as u32) | ((b1 as u32) << 8) | ((b2 as u32) << 16) | ((b3 as u32) << 24);
        proof {
            lemma_bytes_word(b0, b1, b2, b3, r);
        }
        r
    }

    /// The payload byte at the given index.
    pub fn get_byte(&self, idx: usize) -> (r: u8)
        requires
            idx < 4,
        ensures
            r == self.bytes()[idx as int],
    {
        self.data[idx]
    }

    /// The payload as a byte array in wire order.
    pub fn get_array(&self) -> (r: &MsgDataRaw)
        ensures
            r@ == self.bytes(),
    {
        &self.data
    }
}

/// Little-endian split of a word by masks and shifts equals the arithmetic
/// byte decomposition.
proof fn lemma_word_bytes(value: u32, b0: u8, b1: u8, b2: u8, b3: u8)
    requires
        b0 == (value & 0x000000FF) as u8,
        b1 == ((value & 0x0000FF00) >> 8) as u8,
        b2 == ((value & 0x00FF0000) >> 16) as u8,
        b3 == ((value & 0xFF000000) >> 24) as u8,
    ensures
        b0 == value % 0x100,
        b1 == (value / 0x100) % 0x100,
        b2 == (value / 0x10000) % 0x100,
        b3 == (value / 0x1000000) % 0x100,
        value == b0 + b1 * 0x100 + b2 * 0x10000 + b3 * 0x1000000,
{
    assert((value & 0x000000FF) as u8 == value % 0x100 && ((value & 0x0000FF00) >> 8) as u8 == (
    value / 0x100) % 0x100 && ((value & 0x00FF0000) >> 16) as u8 == (value / 0x10000) % 0x100 && ((
    value & 0xFF000000) >> 24) as u8 == (value / 0x1000000) % 0x100) by (bit_vector);
    assert(value == (value % 0x100) + ((value / 0x100) % 0x100) * 0x100 + ((value / 0x10000)
        % 0x100) * 0x10000 + ((value / 0x1000000) % 0x100) * 0x1000000) by (bit_vector);
}

/// Little-endian assembly of four bytes by shifts and ors equals the
/// arithmetic byte composition.
proof fn lemma_bytes_word(b0: u8, b1: u8, b2: u8, b3: u8, r: u32)
    requires
        r == (b0 as u32) | ((b1 as u32) << 8) | ((b2 as u32) << 16) | ((b3 as u32) << 24),
    ensures
        r == b0 + b1 * 0x100 + b2 * 0x10000 + b3 * 0x1000000,
{
    assert(((b0 as u32) | ((b1 as u32) << 8) | ((b2 as u32) << 16) | ((b3 as u32) << 24)) == (
    b0 as u32) + (b1 as u32) * 0x100 + (b2 as u32) * 0x10000 + (b3 as u32) * 0x1000000)
        by (bit_vector);
}

// Message ----------------------------------------------------------------------------------------

/// Raw data type of a complete message: one eight-byte frame.
pub type MsgRaw = [u8; 8];

/// A message: request code, result code, packet id and payload word.
#[derive(Debug, Clone, Copy, PartialEq)]
pub struct Msg {
    /// Request code of the exchange this message belongs to.
    pub request: RequestType,
    /// Result code; `None` in requests, meaningful in responses.
    pub result: ResultType,
    /// Packet id; a response echoes the id of its request.
    pub packet_id: u8,
    /// Payload word.
    pub data: MsgData,
}

/// The eight wire bytes of a message: request code little-endian, result
/// code, packet id, then the four payload bytes.
pub open spec fn msg_bytes(m: Msg) -> Seq<u8> {
    seq![
        (request_code(m.request) % 0x100) as u8,
        (request_code(m.request) / 0x100) as u8,
        result_code(m.result),
        m.packet_id,
    ] + m.data.bytes()
}

/// The 16-bit code held little-endian in the first two bytes of a frame.
pub open spec fn frame_request_code(b: Seq<u8>) -> u16
    recommends
        b.len() == 8,
{
    (b[0] + b[1] * 0x100) as u16
}

/// A frame decodes iff its request and result codes are known.
pub open spec fn frame_decodes(b: Seq<u8>) -> bool
    recommends
        b.len() == 8,
{
    request_of_code(frame_request_code(b)) is Some && result_of_code(b[2]) is Some
}

impl Msg {
    /// A message with the given fields.
    pub fn new(request: RequestType, result: ResultType, packet_id: u8, data: &MsgData) -> (r: Msg)
        ensures
            r.request == request,
            r.result == result,
            r.packet_id == packet_id,
            r.data == *data,
    {
        Msg { request, result, packet_id, data: *data }
    }

    /// A standard request: result `None`, packet id 0, zero payload.
    pub fn new_std_request(request: RequestType) -> (r: Msg)
        ensures
            r.request == request,
            r.result == ResultType::NoneCode,
            r.packet_id == 0,
            r.data.bytes() =~= seq![0u8, 0u8, 0u8, 0u8],
            r.data.word() == 0,
    {
        Msg { request, result: ResultType::NoneCode, packet_id: 0, data: MsgData::new() }
    }

    /// Decode one eight-byte frame.
    ///
    /// A frame whose request or result code is outside the closed
    /// enumerations is rejected as corrupted, never mapped to a default.
    pub fn from_raw_data_array(data: &MsgRaw) -> (r: Result<Msg, Error>)
        ensures
            r is Ok <==> frame_decodes(data@),
            r matches Ok(m) ==> {
                &&& Some(m.request) == request_of_code(frame_request_code(data@))
                &&& Some(m.result) == result_of_code(data@[2])
                &&& m.packet_id == data@[3]
                &&& m.data.bytes() =~= data@.subrange(4, 8)
            },
            r matches Err(e) ==> e matches Error::MsgCorruption(_),
    {
        let code = (data[0] as u16) | ((data[1] as u16) << 8);
        proof {
            lemma_code16(data[0], data[1], code);
        }
        let request = match RequestType::try_from_u16(code) {
            Some(request) => request,
            None => {
                return Err(Error::MsgCorruption("Unknown request code in frame".to_string()));
            },
        };
        let result = match ResultType::try_from_u8(data[2]) {
            Some(result) => result,
            None => {
                return Err(Error::MsgCorruption("Unknown result code in frame".to_string()));
            },
        };
        let packet_id = data[3];
        let payload = MsgData::from_array(&[data[4], data[5], data[6], data[7]]);
        Ok(Msg { request, result, packet_id, data: payload })
    }

    /// Encode this message as one eight-byte frame.
    pub fn to_raw_data_array(&self) -> (r: MsgRaw)
        ensures
            r@ =~= msg_bytes(*self),
    {
        let code = self.request.to_u16();
        let mut data: MsgRaw = [0; 8];
        data[0] = (code & 0x00FF) as u8;
        data[1] = ((code & 0xFF00) >> 8) as u8;
        data[2] = self.result.to_u8();
        data[3] = self.packet_id;
        data[4] = self.data.get_byte(0);
        data[5] = self.data.get_byte(1);
        data[6] = self.data.get_byte(2);
        data[7] = self.data.get_byte(3);
        proof {
            lemma_code16_split(code, (code & 0x00FF) as u8, ((code & 0xFF00) >> 8) as u8);
        }
        data
    }

    /// Validate a response against this request.
    ///
    /// Success exactly when the response carries the same request code and
    /// packet id and a success result (`None` or `Ok`). A request code or
    /// packet id mismatch is reported as `MsgCorruption`; a response that
    /// matches but carries a failure result is reported as `ResultError`.
    /// The payload is not checked.
    pub fn is_response_ok(&self, response: &Msg) -> (r: Result<(), Error>)
        ensures
            r is Ok <==> (response.request == self.request && result_is_success(response.result)
                && response.packet_id == self.packet_id),
            r matches Err(e) ==> {
                &&& ((response.request != self.request || response.packet_id != self.packet_id)
                    ==> (e matches Error::MsgCorruption(_)))
                &&& ((response.request == self.request && response.packet_id == self.packet_id)
                    ==> ((e matches Error::ResultError(_)) && !result_is_success(response.result)))
            },
    {
        let request_valid = self.request == response.request;
        let packet_id_valid = self.packet_id == response.packet_id;
        let result_ok = response.result.is_ok();

        if request_valid && packet_id_valid && result_ok {
            Ok(())
        } else if !packet_id_valid {
            Err(Error::MsgCorruption("Response packet id does not match the request".to_string()))
        } else if !request_valid {
            Err(Error::MsgCorruption("Response request code does not match the request".to_string()))
        } else {
            Err(Error::ResultError("Device returned a failure result code".to_string()))
        }
    }

    /// Validate the echoed payload of a response against this request.
    ///
    /// Success exactly when the response payload equals the request payload;
    /// used after write-like requests that must echo the written word.
    pub fn is_response_data_ok(&self, response: &Msg) -> (r: Result<(), Error>)
        ensures
            r is Ok <==> self.data.bytes() == response.data.bytes(),
            r matches Err(e) ==> e matches Error::MsgCorruption(_),
    {
        let a = self.data.get_array();
        let b = response.data.get_array();
        let data_valid = a[0] == b[0] && a[1] == b[1] && a[2] == b[2] && a[3] == b[3];
        proof {
            self.data.lemma_bytes_len();
            response.data.lemma_bytes_len();
            if data_valid {
                assert(self.data.bytes() =~= response.data.bytes());
            }
        }
        if data_valid {
            Ok(())
        } else {
            Err(Error::MsgCorruption("Response payload does not echo the request".to_string()))
        }
    }

    /// The request code of the message.
    pub fn get_request(&self) -> (r: RequestType)
        ensures
            r == self.request,
    {
        self.request
    }

    /// The result code of the message.
    pub fn get_result(&self) -> (r: ResultType)
        ensures
            r == self.result,
    {
        self.result
    }

    /// The packet id of the message.
    pub fn get_packet_id(&self) -> (r: u8)
        ensures
            r == self.packet_id,
    {
        self.packet_id
    }

    /// The payload of the message.
    pub fn get_data(&self) -> (r: &MsgData)
        ensures
            r == self.data,
    {
        &self.data
    }
}

/// Frame round-trip: the eight bytes of an encoded message decode back to
/// the same request, result, packet id and payload, for every message whose
/// codes are part of the closed enumerations. Encoding is length 8.
pub proof fn lemma_frame_round_trip(m: Msg)
    requires
        m.data.bytes().len() == 4,
    ensures
        msg_bytes(m).len() == 8,
        frame_decodes(msg_bytes(m)),
        request_of_code(frame_request_code(msg_bytes(m))) == Some(m.request),
        result_of_code(msg_bytes(m)[2]) == Some(m.result),
        msg_bytes(m)[3] == m.packet_id,
        msg_bytes(m).subrange(4, 8) =~= m.data.bytes(),
{
    let code = request_code(m.request);
    let lo = (code % 0x100) as u8;
    let hi = (code / 0x100) as u8;
    assert(lo + hi * 0x100 == code) by (nonlinear_arith)
        requires
            lo == code % 0x100,
            hi == code / 0x100,
    {
    }
    lemma_request_code_round_trip(m.request);
    lemma_result_code_round_trip(m.result);
}

/// Splitting a 16-bit code by mask and shift equals its arithmetic split.
proof fn lemma_code16_split(code: u16, lo: u8, hi: u8)
    requires
        lo == (code & 0x00FF) as u8,
        hi == ((code & 0xFF00) >> 8) as u8,
    ensures
        lo == code % 0x100,
        hi == code / 0x100,
{
    assert((code & 0x00FF) as u8 == code % 0x100 && ((code & 0xFF00) >> 8) as u8 == code / 0x100)
        by (bit_vector);
}

/// Assembling two bytes by shift and or equals their arithmetic assembly.
proof fn lemma_code16(b0: u8, b1: u8, code: u16)
    requires
        code == (b0 as u16) | ((b1 as u16) << 8),
    ensures
        code == b0 + b1 * 0x100,
{
    assert(((b0 as u16) | ((b1 as u16) << 8)) == (b0 as u16) + (b1 as u16) * 0x100)
        by (bit_vector);
}

} // verus!
