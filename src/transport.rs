//! The transport capability that the client runs on, and the telegrams of the protocol.
use vstd::prelude::*;
use crate::error::Error;

verus! {

/// Role of the client towards the controller; the controller serves a limited
/// number of connections and closes those of lower priority first.
#[derive(Debug, Clone, Copy, PartialEq, Eq, Structural)]
pub enum Connection {
    /// Programming device.
    PG,
    /// Operator panel.
    OP,
    /// Basic data transfer connection.
    Basic,
}

impl Connection {
    /// The role code placed in the high byte of the remote TSAP.
    pub open spec fn spec_code(self) -> u16 {
        match self {
            Connection::PG => 1,
            Connection::OP => 2,
            Connection::Basic => 3,
        }
    }

    /// The role code placed in the high byte of the remote TSAP.
    pub fn code(&self) -> (r: u16)
        ensures
            r == self.spec_code(),
    {
        match self {
            Connection::PG => 1,
            Connection::OP => 2,
            Connection::Basic => 3,
        }
    }
}

/// A connection to a controller that exchanges whole telegrams.
///
/// An implementation performs the ISO handshake and the PDU negotiation in
/// `negotiate`, and answers every request of `send` with exactly one response.
pub trait Transport {
    /// Sends one request and returns the response frame.
    fn send(&mut self, request: &[u8]) -> Result<Vec<u8>, Error>;

    /// The PDU length negotiated with the controller, 0 before negotiation.
    fn pdu_length(&self) -> i32;

    /// Opens the ISO session and negotiates the PDU length.
    fn negotiate(&mut self) -> Result<(), Error>;

    /// The role of this connection.
    fn connection_type(&self) -> Connection;
}

/// PDU type of a connection confirm.
pub const CONFIRM_CONNECTION: u8 = 0xD0;
/// Minimum length of the first answer of a system status list read.
pub const MIN_SZL_FIRST_TELEGRAM: usize = 42;
/// Minimum length of a CPU status answer.
pub const PLC_STATUS_MIN_RESPONSE: usize = 45;
/// Minimum length of an answer to a start or stop request.
pub const TELEGRAM_MIN_RESPONSE: usize = 19;
/// Minimum length of the payload of the CPU identification list.
pub const SZL_MIN_RESPONSE: usize = 205;
/// Function code of a CPU start.
pub const PDU_START: u8 = 0x28;
/// Function code of a CPU stop.
pub const PDU_STOP: u8 = 0x29;
/// Answer code of a CPU that already runs.
pub const PDU_ALREADY_STARTED: u8 = 0x02;
/// Answer code of a CPU that is already stopped.
pub const PDU_ALREADY_STOPPED: u8 = 0x07;

/// ISO connection request, with TPKT and COTP headers; the TSAPs at 16, 17, 20 and 21 are placeholders.
pub open spec fn spec_iso_connection_request_telegram() -> Seq<u8> {
    seq![3, 0, 0, 22, 17, 224, 0, 0, 0, 1, 0, 192, 1, 10, 193, 2, 1, 0, 194, 2, 1, 2]
}

/// ISO connection request, with TPKT and COTP headers; the TSAPs at 16, 17, 20 and 21 are placeholders.
pub fn iso_connection_request_telegram() -> (r: Vec<u8>)
    ensures
        r@ == spec_iso_connection_request_telegram(),
{
    let r: Vec<u8> = vec![3, 0, 0, 22, 17, 224, 0, 0, 0, 1, 0, 192, 1, 10, 193, 2, 1, 0, 194, 2, 1, 2];
    assert(r@ =~= spec_iso_connection_request_telegram());
    r
}

/// S7 read/write request header, with TPKT and COTP headers; a read request uses its first 31 bytes.
pub open spec fn spec_read_write_telegram() -> Seq<u8> {
    seq![3, 0, 0, 31, 2, 240, 128, 50, 1, 0, 0, 5, 0, 0, 14, 0, 0, 4, 1, 18, 10, 16, 2, 0, 0, 0, 0, 132, 0, 0, 0, 0, 4, 0, 0]
}

/// S7 read/write request header, with TPKT and COTP headers; a read request uses its first 31 bytes.
pub fn read_write_telegram() -> (r: Vec<u8>)
    ensures
        r@ == spec_read_write_telegram(),
{
    let r: Vec<u8> = vec![3, 0, 0, 31, 2, 240, 128, 50, 1, 0, 0, 5, 0, 0, 14, 0, 0, 4, 1, 18, 10, 16, 2, 0, 0, 0, 0, 132, 0, 0, 0, 0, 4, 0, 0];
    assert(r@ =~= spec_read_write_telegram());
    r
}

/// PDU length negotiation request; it asks for 480 bytes at 23 and 24.
pub open spec fn spec_pdu_negotiation_telegram() -> Seq<u8> {
    seq![3, 0, 0, 25, 2, 240, 128, 50, 1, 0, 0, 4, 0, 0, 8, 0, 0, 240, 0, 0, 1, 0, 1, 0, 30]
}

/// PDU length negotiation request; it asks for 480 bytes at 23 and 24.
pub fn pdu_negotiation_telegram() -> (r: Vec<u8>)
    ensures
        r@ == spec_pdu_negotiation_telegram(),
{
    let r: Vec<u8> = vec![3, 0, 0, 25, 2, 240, 128, 50, 1, 0, 0, 4, 0, 0, 8, 0, 0, 240, 0, 0, 1, 0, 1, 0, 30];
    assert(r@ =~= spec_pdu_negotiation_telegram());
    r
}

/// Warm restart request.
pub open spec fn spec_warm_start_telegram() -> Seq<u8> {
    seq![3, 0, 0, 37, 2, 240, 128, 50, 1, 0, 0, 12, 0, 0, 20, 0, 0, 40, 0, 0, 0, 0, 0, 0, 253, 0, 0, 9, 80, 95, 80, 82, 79, 71, 82, 65, 77]
}

/// Warm restart request.
pub fn warm_start_telegram() -> (r: Vec<u8>)
    ensures
        r@ == spec_warm_start_telegram(),
{
    let r: Vec<u8> = vec![3, 0, 0, 37, 2, 240, 128, 50, 1, 0, 0, 12, 0, 0, 20, 0, 0, 40, 0, 0, 0, 0, 0, 0, 253, 0, 0, 9, 80, 95, 80, 82, 79, 71, 82, 65, 77];
    assert(r@ =~= spec_warm_start_telegram());
    r
}

/// Cold start request.
pub open spec fn spec_cold_start_telegram() -> Seq<u8> {
    seq![3, 0, 0, 39, 2, 240, 128, 50, 1, 0, 0, 15, 0, 0, 22, 0, 0, 40, 0, 0, 0, 0, 0, 0, 253, 0, 2, 67, 32, 9, 80, 95, 80, 82, 79, 71, 82, 65, 77]
}

/// Cold start request.
pub fn cold_start_telegram() -> (r: Vec<u8>)
    ensures
        r@ == spec_cold_start_telegram(),
{
    let r: Vec<u8> = vec![3, 0, 0, 39, 2, 240, 128, 50, 1, 0, 0, 15, 0, 0, 22, 0, 0, 40, 0, 0, 0, 0, 0, 0, 253, 0, 2, 67, 32, 9, 80, 95, 80, 82, 79, 71, 82, 65, 77];
    assert(r@ =~= spec_cold_start_telegram());
    r
}

/// Stop request.
pub open spec fn spec_stop_telegram() -> Seq<u8> {
    seq![3, 0, 0, 33, 2, 240, 128, 50, 1, 0, 0, 14, 0, 0, 16, 0, 0, 41, 0, 0, 0, 0, 0, 9, 80, 95, 80, 82, 79, 71, 82, 65, 77]
}

/// Stop request.
pub fn stop_telegram() -> (r: Vec<u8>)
    ensures
        r@ == spec_stop_telegram(),
{
    let r: Vec<u8> = vec![3, 0, 0, 33, 2, 240, 128, 50, 1, 0, 0, 14, 0, 0, 16, 0, 0, 41, 0, 0, 0, 0, 0, 9, 80, 95, 80, 82, 79, 71, 82, 65, 77];
    assert(r@ =~= spec_stop_telegram());
    r
}

/// CPU status request.
pub open spec fn spec_plc_status_telegram() -> Seq<u8> {
    seq![3, 0, 0, 33, 2, 240, 128, 50, 7, 0, 0, 44, 0, 0, 8, 0, 8, 0, 1, 18, 4, 17, 68, 1, 0, 255, 9, 0, 4, 4, 36, 0, 0]
}

/// CPU status request.
pub fn plc_status_telegram() -> (r: Vec<u8>)
    ensures
        r@ == spec_plc_status_telegram(),
{
    let r: Vec<u8> = vec![3, 0, 0, 33, 2, 240, 128, 50, 7, 0, 0, 44, 0, 0, 8, 0, 8, 0, 1, 18, 4, 17, 68, 1, 0, 255, 9, 0, 4, 4, 36, 0, 0];
    assert(r@ =~= spec_plc_status_telegram());
    r
}

/// First request of a system status list read; sequence at 11, ID at 29, index at 31.
pub open spec fn spec_szl_first_telegram() -> Seq<u8> {
    seq![3, 0, 0, 33, 2, 240, 128, 50, 7, 0, 0, 5, 0, 0, 8, 0, 8, 0, 1, 18, 4, 17, 68, 1, 0, 255, 9, 0, 4, 0, 0, 0, 0]
}

/// First request of a system status list read; sequence at 11, ID at 29, index at 31.
pub fn szl_first_telegram() -> (r: Vec<u8>)
    ensures
        r@ == spec_szl_first_telegram(),
{
    let r: Vec<u8> = vec![3, 0, 0, 33, 2, 240, 128, 50, 7, 0, 0, 5, 0, 0, 8, 0, 8, 0, 1, 18, 4, 17, 68, 1, 0, 255, 9, 0, 4, 0, 0, 0, 0];
    assert(r@ =~= spec_szl_first_telegram());
    r
}

/// Follow-up request of a system status list read; sequence at 24.
pub open spec fn spec_szl_next_telegram() -> Seq<u8> {
    seq![3, 0, 0, 33, 2, 240, 128, 50, 7, 0, 0, 6, 0, 0, 12, 0, 4, 0, 1, 18, 8, 18, 68, 1, 1, 0, 0, 0, 0, 10, 0, 0, 0]
}

/// Follow-up request of a system status list read; sequence at 24.
pub fn szl_next_telegram() -> (r: Vec<u8>)
    ensures
        r@ == spec_szl_next_telegram(),
{
    let r: Vec<u8> = vec![3, 0, 0, 33, 2, 240, 128, 50, 7, 0, 0, 6, 0, 0, 12, 0, 4, 0, 1, 18, 8, 18, 68, 1, 1, 0, 0, 0, 0, 10, 0, 0, 0];
    assert(r@ =~= spec_szl_next_telegram());
    r
}

/// Header of a system status list: length of one record and number of records.
#[derive(Debug, Clone, Copy, PartialEq, Eq, Structural)]
pub struct SZLHeader {
    /// Length of one data record, as the controller sends it.
    pub length_header: u16,
    /// Number of data records.
    pub number_of_data_record: u16,
}

/// A system status list as read from the controller.
#[derive(Debug, Clone)]
pub struct S7SZL {
    /// The header of the first answer.
    pub header: SZLHeader,
    /// The data records of all answers, in order.
    pub data: Vec<u8>,
}

} // verus!
