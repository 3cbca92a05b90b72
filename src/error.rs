//! Errors of the client and the table of CPU error codes.
use vstd::prelude::*;

verus! {

/// The kind of an I/O failure, `std::io::ErrorKind`, declared so that an error can
/// carry it; nothing is assumed of its values.
#[verifier::external_type_specification]
#[verifier::external_body]
pub struct ExErrorKind(std::io::ErrorKind);

/// Client error code: error creating the Socket.
pub const TCP_SOCKET_CREATION: i32 = 1;
/// Client error code: connection Timeout.
pub const TCP_CONNECTION_TIMEOUT: i32 = 2;
/// Client error code: connection Error.
pub const TCP_CONNECTION_FAILED: i32 = 3;
/// Client error code: data receive Timeout.
pub const TCP_RECEIVE_TIMEOUT: i32 = 4;
/// Client error code: error receiving Data.
pub const TCP_DATA_RECEIVE: i32 = -5;
/// Client error code: data send Timeout.
pub const TCP_SEND_TIMEOUT: i32 = 0x00000006;
/// Client error code: error sending Data.
pub const TCP_DATA_SEND: i32 = 0x00000007;
/// Client error code: connection reset by the Peer.
pub const TCP_CONNECTION_RESET: i32 = 0x00000008;
/// Client error code: client not connected.
pub const TCP_NOT_CONNECTED: i32 = 0x00000009;
/// Client error code: unreachable host.
pub const TCP_UNREACHALE_HOST: i32 = 0x00002751;
/// Client error code: connection Error.
pub const ISO_CONNECT: i32 = 0x00010000;
/// Client error code: invalid PDU received.
pub const ISO_INVALID_PDU: i32 = 0x00030000;
/// Client error code: invalid Buffer passed to Send/Receive.
pub const ISO_INVALID_DATA_SIZE: i32 = 0x00040000;
/// Client error code: error in PDU negotiation.
pub const CLI_NEGOTIATING_PDU: i32 = 0x00100000;
/// Client error code: invalid param(s) supplied.
pub const CLI_INVALID_PARAMS: i32 = 0x00200000;
/// Client error code: job pending.
pub const CLI_JOB_PENDING: i32 = 0x00300000;
/// Client error code: too may items (>20) in multi read/write.
pub const CLI_TOO_MANY_ITEMS: i32 = 0x00400000;
/// Client error code: invalid WordLength.
pub const CLI_INVALID_DWORD_LEN: i32 = 0x00500000;
/// Client error code: partial data written.
pub const CLI_PARTIAL_DATA_WRITTEN: i32 = 0x00600000;
/// Client error code: total data exceeds the PDU size.
pub const CLI_SIZE_OVER_PDU: i32 = 0x00700000;
/// Client error code: invalid CPU answer.
pub const CLI_INVALID_PLC_ANSWER: i32 = 0x00800000;
/// Client error code: address out of range.
pub const CLI_ADDRESS_OUT_OF_RANGE: i32 = 0x00900000;
/// Client error code: invalid Transport size.
pub const CLI_INVALID_TRANSPORT_SIZE: i32 = 0x00A00000;
/// Client error code: data size mismatch.
pub const CLI_WRITE_DATA_SIZE_MISMATCH: i32 = 0x00B00000;
/// Client error code: item not available.
pub const CLI_ITEM_NOT_AVAILABLE: i32 = 0x00C00000;
/// Client error code: invalid value supplied.
pub const CLI_INVALID_VALUE: i32 = 0x00D00000;
/// Client error code: cannot start PLC.
pub const CLI_CANNOT_START_PLC: i32 = 0x00E00000;
/// Client error code: pLC already RUN.
pub const CLI_ALREADY_RUN: i32 = 0x00F00000;
/// Client error code: cannot stop PLC.
pub const CLI_CANNOT_STOP_PLC: i32 = 0x01000000;
/// Client error code: cannot copy RAM to ROM.
pub const CLI_CANNOT_COPY_RAM_TO_ROM: i32 = 0x01100000;
/// Client error code: cannot compress.
pub const CLI_CANNOT_COMPRESS: i32 = 0x01200000;
/// Client error code: pLC already STOP.
pub const CLI_ALREADY_STOP: i32 = 0x01300000;
/// Client error code: function not available.
pub const CLI_FUN_NOT_AVAILABLE: i32 = 0x01400000;
/// Client error code: upload sequence failed.
pub const CLI_UPLOAD_SEQUENCE_FAILED: i32 = 0x01500000;
/// Client error code: invalid data size received.
pub const CLI_INVALID_DATA_SIZE_RECVD: i32 = 0x01600000;
/// Client error code: invalid block type.
pub const CLI_INVALID_BLOCK_TYPE: i32 = 0x01700000;
/// Client error code: invalid block number.
pub const CLI_INVALID_BLOCK_NUMBER: i32 = 0x01800000;
/// Client error code: invalid block size.
pub const CLI_INVALID_BLOCK_SIZE: i32 = 0x01900000;
/// Client error code: function not authorized for current protection level.
pub const CLI_NEED_PASSWORD: i32 = 0x01D00000;
/// Client error code: invalid password.
pub const CLI_INVALID_PASSWORD: i32 = 0x01E00000;
/// Client error code: no password to set or clear.
pub const CLI_NO_PASSWORD_TO_SET_OR_CLEAR: i32 = 0x01F00000;
/// Client error code: job Timeout.
pub const CLI_JOB_TIMEOUT: i32 = 0x02000000;
/// Client error code: partial data read.
pub const CLI_PARTIAL_DATA_READ: i32 = 0x02100000;
/// Client error code: the buffer supplied is too small to accomplish the operation.
pub const CLI_BUFFER_TOO_SMALL: i32 = 0x02200000;
/// Client error code: function refused by CPU (Unknown error).
pub const CLI_FUNCTION_REFUSED: i32 = 0x02300000;
/// Client error code: cannot perform (destroying).
pub const CLI_DESTROYING: i32 = 0x02400000;
/// Client error code: invalid Param Number.
pub const CLI_INVALID_PARAM_NUMBER: i32 = 0x02500000;
/// Client error code: cannot change this param now.
pub const CLI_CANNOT_CHANGE_PARAM: i32 = 0x02600000;
/// Client error code: function not implemented.
pub const CLI_FUNCTION_NOT_IMPLEMENTED: i32 = 0x02700000;
/// Error code sent by the CPU: address out of range.
pub const CODE_7_ADDRESS_OUT_OF_RANGE: i32 = 5;
/// Error code sent by the CPU: invalid transport size.
pub const CODE_7_INVALID_TRANSPORT_SIZE: i32 = 6;
/// Error code sent by the CPU: write data size mismatch.
pub const CODE_7_WRITE_DATA_SIZE_MISMATCH: i32 = 7;
/// Error code sent by the CPU: item not available.
pub const CODE_7_RES_ITEM_NOT_AVAILABLE: i32 = 10;
/// Error code sent by the CPU: item not available.
pub const CODE_7_RES_ITEM_NOT_AVAILABLE1: i32 = 53769;
/// Error code sent by the CPU: invalid value.
pub const CODE_7_INVALID_VALUE: i32 = 56321;
/// Error code sent by the CPU: need password.
pub const CODE_7_NEED_PASSWORD: i32 = 53825;
/// Error code sent by the CPU: invalid password.
pub const CODE_7_INVALID_PASSWORD: i32 = 54786;
/// Error code sent by the CPU: no password to clear.
pub const CODE_7_NO_PASSWORD_TO_CLEAR: i32 = 54788;
/// Error code sent by the CPU: no password to set.
pub const CODE_7_NO_PASSWORD_TO_SET: i32 = 54789;
/// Error code sent by the CPU: fun not available.
pub const CODE_7_FUN_NOT_AVAILABLE: i32 = 33028;
/// Error code sent by the CPU: data over pdu.
pub const CODE_7_DATA_OVER_PDU: i32 = 34048;

/// An error of the client.
#[derive(Debug)]
pub enum Error {
    /// The TCP connection could not be opened.
    Connect(String),
    /// The lock round the connection was poisoned.
    Lock,
    /// A socket read or write failed.
    IOError(std::io::ErrorKind),
    /// The answer of the controller, or the request, is malformed; `code` is a client error code.
    Response { code: i32 },
    /// The controller reported an error; `code` is the code it sent.
    CPU { code: i32 },
    /// An argument was rejected.
    InvalidInput { input: String },
    /// Sending failed.
    Send,
    /// The controller refused the ISO connection request.
    Iso,
    /// A frame length or PDU length out of range.
    PduLength(i32),
    /// A field could not be built from the given bytes.
    TryFrom(Vec<u8>, String),
    /// A CPU status byte other than 0, 4 and 8.
    InvalidCpuStatus(u8),
    /// The answer holds bytes that cannot be decoded.
    InvalidResponse { reason: String, bytes: Vec<u8> },
}

/// The client error code that a CPU error code maps to.
pub open spec fn spec_cpu_error(err: i32) -> i32 {
    if err == CODE_7_ADDRESS_OUT_OF_RANGE {
        CLI_ADDRESS_OUT_OF_RANGE
    } else if err == CODE_7_INVALID_TRANSPORT_SIZE {
        CLI_INVALID_TRANSPORT_SIZE
    } else if err == CODE_7_WRITE_DATA_SIZE_MISMATCH {
        CLI_WRITE_DATA_SIZE_MISMATCH
    } else if err == CODE_7_RES_ITEM_NOT_AVAILABLE {
        CLI_ITEM_NOT_AVAILABLE
    } else if err == CODE_7_RES_ITEM_NOT_AVAILABLE1 {
        CLI_ITEM_NOT_AVAILABLE
    } else if err == CODE_7_DATA_OVER_PDU {
        CLI_SIZE_OVER_PDU
    } else if err == CODE_7_INVALID_VALUE {
        CLI_INVALID_VALUE
    } else if err == CODE_7_FUN_NOT_AVAILABLE {
        CLI_FUN_NOT_AVAILABLE
    } else if err == CODE_7_NEED_PASSWORD {
        CLI_NEED_PASSWORD
    } else if err == CODE_7_INVALID_PASSWORD {
        CLI_INVALID_PASSWORD
    } else if err == CODE_7_NO_PASSWORD_TO_SET {
        CLI_NO_PASSWORD_TO_SET_OR_CLEAR
    } else if err == CODE_7_NO_PASSWORD_TO_CLEAR {
        CLI_NO_PASSWORD_TO_SET_OR_CLEAR
    } else {
        CLI_FUNCTION_REFUSED
    }
}

/// The client error code that a CPU error code maps to;
/// codes outside the table give `CLI_FUNCTION_REFUSED`.
pub fn cpu_error(err: i32) -> (r: i32)
    ensures
        r == spec_cpu_error(err),
{
    if err == CODE_7_ADDRESS_OUT_OF_RANGE {
        CLI_ADDRESS_OUT_OF_RANGE
    } else if err == CODE_7_INVALID_TRANSPORT_SIZE {
        CLI_INVALID_TRANSPORT_SIZE
    } else if err == CODE_7_WRITE_DATA_SIZE_MISMATCH {
        CLI_WRITE_DATA_SIZE_MISMATCH
    } else if err == CODE_7_RES_ITEM_NOT_AVAILABLE {
        CLI_ITEM_NOT_AVAILABLE
    } else if err == CODE_7_RES_ITEM_NOT_AVAILABLE1 {
        CLI_ITEM_NOT_AVAILABLE
    } else if err == CODE_7_DATA_OVER_PDU {
        CLI_SIZE_OVER_PDU
    } else if err == CODE_7_INVALID_VALUE {
        CLI_INVALID_VALUE
    } else if err == CODE_7_FUN_NOT_AVAILABLE {
        CLI_FUN_NOT_AVAILABLE
    } else if err == CODE_7_NEED_PASSWORD {
        CLI_NEED_PASSWORD
    } else if err == CODE_7_INVALID_PASSWORD {
        CLI_INVALID_PASSWORD
    } else if err == CODE_7_NO_PASSWORD_TO_SET {
        CLI_NO_PASSWORD_TO_SET_OR_CLEAR
    } else if err == CODE_7_NO_PASSWORD_TO_CLEAR {
        CLI_NO_PASSWORD_TO_SET_OR_CLEAR
    } else {
        CLI_FUNCTION_REFUSED
    }
}

/// The message of an error code.
pub open spec fn spec_error_text(err: i32) -> Seq<char> {
    if err == 0 {
        "OK"@
    } else if err == TCP_SOCKET_CREATION {
        "SYS : Error creating the Socket"@
    } else if err == TCP_CONNECTION_TIMEOUT {
        "TCP : Connection Timeout"@
    } else if err == TCP_CONNECTION_FAILED {
        "TCP : Connection Error"@
    } else if err == TCP_RECEIVE_TIMEOUT {
        "TCP : Data receive Timeout"@
    } else if err == TCP_DATA_RECEIVE {
        "TCP : Error receiving Data"@
    } else if err == TCP_SEND_TIMEOUT {
        "TCP : Data send Timeout"@
    } else if err == TCP_DATA_SEND {
        "TCP : Error sending Data"@
    } else if err == TCP_CONNECTION_RESET {
        "TCP : Connection reset by the Peer"@
    } else if err == TCP_NOT_CONNECTED {
        "CLI : Client not connected"@
    } else if err == TCP_UNREACHALE_HOST {
        "TCP : Unreachable host"@
    } else if err == ISO_CONNECT {
        "ISO : Connection Error"@
    } else if err == ISO_INVALID_PDU {
        "ISO : Invalid PDU received"@
    } else if err == ISO_INVALID_DATA_SIZE {
        "ISO : Invalid Buffer passed to Send/Receive"@
    } else if err == CLI_NEGOTIATING_PDU {
        "CLI : Error in PDU negotiation"@
    } else if err == CLI_INVALID_PARAMS {
        "CLI : invalid param(s) supplied"@
    } else if err == CLI_JOB_PENDING {
        "CLI : Job pending"@
    } else if err == CLI_TOO_MANY_ITEMS {
        "CLI : too may items (>20) in multi read/write"@
    } else if err == CLI_INVALID_DWORD_LEN {
        "CLI : invalid WordLength"@
    } else if err == CLI_PARTIAL_DATA_WRITTEN {
        "CLI : Partial data written"@
    } else if err == CLI_SIZE_OVER_PDU {
        "CPU : total data exceeds the PDU size"@
    } else if err == CLI_INVALID_PLC_ANSWER {
        "CLI : invalid CPU answer"@
    } else if err == CLI_ADDRESS_OUT_OF_RANGE {
        "CPU : Address out of range"@
    } else if err == CLI_INVALID_TRANSPORT_SIZE {
        "CPU : Invalid Transport size"@
    } else if err == CLI_WRITE_DATA_SIZE_MISMATCH {
        "CPU : Data size mismatch"@
    } else if err == CLI_ITEM_NOT_AVAILABLE {
        "CPU : Item not available"@
    } else if err == CLI_INVALID_VALUE {
        "CPU : Invalid value supplied"@
    } else if err == CLI_CANNOT_START_PLC {
        "CPU : Cannot start PLC"@
    } else if err == CLI_ALREADY_RUN {
        "CPU : PLC already RUN"@
    } else if err == CLI_CANNOT_STOP_PLC {
        "CPU : Cannot stop PLC"@
    } else if err == CLI_CANNOT_COPY_RAM_TO_ROM {
        "CPU : Cannot copy RAM to ROM"@
    } else if err == CLI_CANNOT_COMPRESS {
        "CPU : Cannot compress"@
    } else if err == CLI_ALREADY_STOP {
        "CPU : PLC already STOP"@
    } else if err == CLI_FUN_NOT_AVAILABLE {
        "CPU : Function not available"@
    } else if err == CLI_UPLOAD_SEQUENCE_FAILED {
        "CPU : Upload sequence failed"@
    } else if err == CLI_INVALID_DATA_SIZE_RECVD {
        "CLI : Invalid data size received"@
    } else if err == CLI_INVALID_BLOCK_TYPE {
        "CLI : Invalid block type"@
    } else if err == CLI_INVALID_BLOCK_NUMBER {
        "CLI : Invalid block number"@
    } else if err == CLI_INVALID_BLOCK_SIZE {
        "CLI : Invalid block size"@
    } else if err == CLI_NEED_PASSWORD {
        "CPU : Function not authorized for current protection level"@
    } else if err == CLI_INVALID_PASSWORD {
        "CPU : Invalid password"@
    } else if err == CLI_NO_PASSWORD_TO_SET_OR_CLEAR {
        "CPU : No password to set or clear"@
    } else if err == CLI_JOB_TIMEOUT {
        "CLI : Job Timeout"@
    } else if err == CLI_FUNCTION_REFUSED {
        "CLI : function refused by CPU (Unknown error)"@
    } else if err == CLI_PARTIAL_DATA_READ {
        "CLI : Partial data read"@
    } else if err == CLI_BUFFER_TOO_SMALL {
        "CLI : The buffer supplied is too small to accomplish the operation"@
    } else if err == CLI_DESTROYING {
        "CLI : Cannot perform (destroying)"@
    } else if err == CLI_INVALID_PARAM_NUMBER {
        "CLI : Invalid Param Number"@
    } else if err == CLI_CANNOT_CHANGE_PARAM {
        "CLI : Cannot change this param now"@
    } else if err == CLI_FUNCTION_NOT_IMPLEMENTED {
        "CLI : Function not implemented"@
    } else {
        "CLI : Unknown error"@
    }
}

/// The message of an error code; codes outside the table give `"CLI : Unknown error"`.
pub fn error_text(err: i32) -> (r: &'static str)
    ensures
        r@ == spec_error_text(err),
{
    if err == 0 {
        "OK"
    } else if err == TCP_SOCKET_CREATION {
        "SYS : Error creating the Socket"
    } else if err == TCP_CONNECTION_TIMEOUT {
        "TCP : Connection Timeout"
    } else if err == TCP_CONNECTION_FAILED {
        "TCP : Connection Error"
    } else if err == TCP_RECEIVE_TIMEOUT {
        "TCP : Data receive Timeout"
    } else if err == TCP_DATA_RECEIVE {
        "TCP : Error receiving Data"
    } else if err == TCP_SEND_TIMEOUT {
        "TCP : Data send Timeout"
    } else if err == TCP_DATA_SEND {
        "TCP : Error sending Data"
    } else if err == TCP_CONNECTION_RESET {
        "TCP : Connection reset by the Peer"
    } else if err == TCP_NOT_CONNECTED {
        "CLI : Client not connected"
    } else if err == TCP_UNREACHALE_HOST {
        "TCP : Unreachable host"
    } else if err == ISO_CONNECT {
        "ISO : Connection Error"
    } else if err == ISO_INVALID_PDU {
        "ISO : Invalid PDU received"
    } else if err == ISO_INVALID_DATA_SIZE {
        "ISO : Invalid Buffer passed to Send/Receive"
    } else if err == CLI_NEGOTIATING_PDU {
        "CLI : Error in PDU negotiation"
    } else if err == CLI_INVALID_PARAMS {
        "CLI : invalid param(s) supplied"
    } else if err == CLI_JOB_PENDING {
        "CLI : Job pending"
    } else if err == CLI_TOO_MANY_ITEMS {
        "CLI : too may items (>20) in multi read/write"
    } else if err == CLI_INVALID_DWORD_LEN {
        "CLI : invalid WordLength"
    } else if err == CLI_PARTIAL_DATA_WRITTEN {
        "CLI : Partial data written"
    } else if err == CLI_SIZE_OVER_PDU {
        "CPU : total data exceeds the PDU size"
    } else if err == CLI_INVALID_PLC_ANSWER {
        "CLI : invalid CPU answer"
    } else if err == CLI_ADDRESS_OUT_OF_RANGE {
        "CPU : Address out of range"
    } else if err == CLI_INVALID_TRANSPORT_SIZE {
        "CPU : Invalid Transport size"
    } else if err == CLI_WRITE_DATA_SIZE_MISMATCH {
        "CPU : Data size mismatch"
    } else if err == CLI_ITEM_NOT_AVAILABLE {
        "CPU : Item not available"
    } else if err == CLI_INVALID_VALUE {
        "CPU : Invalid value supplied"
    } else if err == CLI_CANNOT_START_PLC {
        "CPU : Cannot start PLC"
    } else if err == CLI_ALREADY_RUN {
        "CPU : PLC already RUN"
    } else if err == CLI_CANNOT_STOP_PLC {
        "CPU : Cannot stop PLC"
    } else if err == CLI_CANNOT_COPY_RAM_TO_ROM {
        "CPU : Cannot copy RAM to ROM"
    } else if err == CLI_CANNOT_COMPRESS {
        "CPU : Cannot compress"
    } else if err == CLI_ALREADY_STOP {
        "CPU : PLC already STOP"
    } else if err == CLI_FUN_NOT_AVAILABLE {
        "CPU : Function not available"
    } else if err == CLI_UPLOAD_SEQUENCE_FAILED {
        "CPU : Upload sequence failed"
    } else if err == CLI_INVALID_DATA_SIZE_RECVD {
        "CLI : Invalid data size received"
    } else if err == CLI_INVALID_BLOCK_TYPE {
        "CLI : Invalid block type"
    } else if err == CLI_INVALID_BLOCK_NUMBER {
        "CLI : Invalid block number"
    } else if err == CLI_INVALID_BLOCK_SIZE {
        "CLI : Invalid block size"
    } else if err == CLI_NEED_PASSWORD {
        "CPU : Function not authorized for current protection level"
    } else if err == CLI_INVALID_PASSWORD {
        "CPU : Invalid password"
    } else if err == CLI_NO_PASSWORD_TO_SET_OR_CLEAR {
        "CPU : No password to set or clear"
    } else if err == CLI_JOB_TIMEOUT {
        "CLI : Job Timeout"
    } else if err == CLI_FUNCTION_REFUSED {
        "CLI : function refused by CPU (Unknown error)"
    } else if err == CLI_PARTIAL_DATA_READ {
        "CLI : Partial data read"
    } else if err == CLI_BUFFER_TOO_SMALL {
        "CLI : The buffer supplied is too small to accomplish the operation"
    } else if err == CLI_DESTROYING {
        "CLI : Cannot perform (destroying)"
    } else if err == CLI_INVALID_PARAM_NUMBER {
        "CLI : Invalid Param Number"
    } else if err == CLI_CANNOT_CHANGE_PARAM {
        "CLI : Cannot change this param now"
    } else if err == CLI_FUNCTION_NOT_IMPLEMENTED {
        "CLI : Function not implemented"
    } else {
        "CLI : Unknown error"
    }
}

} // verus!
