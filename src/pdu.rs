//! Building the S7 requests of the client and checking the controller's answers.
use vstd::prelude::*;
use vstd::arithmetic::div_mod::{lemma_fundamental_div_mod, lemma_fundamental_div_mod_converse};
use crate::codec::{be_u16_at, put_be_u16, read_u16, write_u16};
use crate::constant::{
    data_size_byte, spec_data_size_byte, Area, CpuStatus, SIZE_HEADER_WRITE, TS_RES_BIT, TS_RES_BYTE, TS_RES_OCTET,
    WL_BIT, WL_BYTE, WL_COUNTER, WL_TIMER,
};
use crate::error::{Error, CLI_INVALID_PLC_ANSWER, ISO_INVALID_DATA_SIZE, ISO_INVALID_PDU};
use crate::transport::{
    read_write_telegram, spec_read_write_telegram, spec_szl_first_telegram,
    spec_szl_next_telegram, szl_first_telegram, szl_next_telegram, SZLHeader,
    MIN_SZL_FIRST_TELEGRAM, PLC_STATUS_MIN_RESPONSE, TELEGRAM_MIN_RESPONSE,
};

verus! {

/// Largest magnitude of a start offset after it has been advanced through a transfer.
pub const MAX_START: i64 = 0x10_0000_0000;

/// Size of the address space that a request can name: three bytes.
pub const ADDRESS_SPACE: i64 = 0x100_0000;

/// Bytes of a read answer in front of the data.
pub const READ_REPLY_HEADER: usize = 25;

/// Bytes of the controller's read reply header, subtracted from the PDU length.
pub const READ_PDU_OVERHEAD: i32 = 18;

/// Bytes of a write request header, subtracted from the PDU length.
pub const WRITE_PDU_OVERHEAD: i32 = 35;

/// Length of a write answer.
pub const WRITE_REPLY_LEN: usize = 22;

/// Whether a word length is transferred element by element rather than as bytes.
pub open spec fn is_element_len(word_len: i32) -> bool {
    word_len == WL_BIT || word_len == WL_COUNTER || word_len == WL_TIMER
}

/// The address of a start offset on the wire: bits for byte transfers, elements otherwise.
pub open spec fn address_of(word_len: i32, start: int) -> int {
    if is_element_len(word_len) {
        start
    } else {
        start * 8
    }
}

/// `b` with the three-byte big-endian address `address` (taken modulo 2^24) stored at `at`.
pub open spec fn put_address(b: Seq<u8>, at: int, address: int) -> Seq<u8> {
    let a = address % (ADDRESS_SPACE as int);
    b.update(at, (a / 65536) as u8).update(at + 1, ((a / 256) % 256) as u8).update(
        at + 2,
        (a % 256) as u8,
    )
}

/// The read request for `n` elements at `start`, with an already normalized word length.
pub open spec fn spec_read_request(area: Area, db_number: i32, start: int, n: int, word_len: i32) -> Seq<u8> {
    let t = spec_read_write_telegram().subrange(0, 31);
    let t = put_be_u16(t, 25, db_number as u16);
    let t = t.update(27, area.spec_code());
    let t = if is_element_len(word_len) {
        t.update(22, word_len as u8)
    } else {
        t
    };
    let t = put_be_u16(t, 23, n as u16);
    put_address(t, 28, address_of(word_len, start))
}

/// Transport size code of a write request.
pub open spec fn transport_size(word_len: i32) -> u8 {
    if word_len == WL_BIT {
        TS_RES_BIT
    } else if word_len == WL_COUNTER || word_len == WL_TIMER {
        TS_RES_OCTET
    } else {
        TS_RES_BYTE
    }
}

/// The length written into a write request: bytes for elements, bits for byte transfers.
pub open spec fn length_field(word_len: i32, size: int) -> u16 {
    if is_element_len(word_len) {
        size as u16
    } else {
        (size * 8) as u16
    }
}

/// The write request for `n` elements at `start` carrying `data`.
pub open spec fn spec_write_request(
    area: Area,
    db_number: i32,
    start: int,
    n: int,
    word_len: i32,
    data: Seq<u8>,
) -> Seq<u8> {
    let len = length_field(word_len, data.len() as int);
    let t = spec_read_write_telegram();
    let t = put_be_u16(t, 2, (35 + data.len()) as u16);
    let t = put_be_u16(t, 15, len);
    let t = t.update(17, 5);
    let t = if area == Area::DataBausteine {
        put_be_u16(t, 25, db_number as u16)
    } else {
        t
    };
    let t = t.update(27, area.spec_code());
    let t = if is_element_len(word_len) {
        t.update(22, word_len as u8)
    } else {
        t
    };
    let t = put_be_u16(t, 23, n as u16);
    let t = put_address(t, 28, address_of(word_len, start));
    let t = t.update(32, transport_size(word_len));
    let t = put_be_u16(t, 33, len);
    t + data
}

/// The remainder of `address` modulo 2^24.
fn address24(address: i64) -> (r: u32)
    requires
        -MAX_START * 8 <= address <= MAX_START * 8,
    ensures
        r as int == address as int % (ADDRESS_SPACE as int),
{
    if address >= 0 {
        (address % ADDRESS_SPACE) as u32
    } else {
        let b: i64 = -(address + 1);
        let m: i64 = b % ADDRESS_SPACE;
        proof {
            let d = ADDRESS_SPACE as int;
            let q = b as int / d;
            lemma_fundamental_div_mod(b as int, d);
            assert(address as int == (-q - 1) * d + (d - 1 - m)) by (nonlinear_arith)
                requires
                    b as int == d * q + m,
                    address as int == -(b as int) - 1,
            ;
            lemma_fundamental_div_mod_converse(address as int, d, -q - 1, d - 1 - m);
        }
        (ADDRESS_SPACE - 1 - m) as u32
    }
}

/// Stores the three-byte address at `at`.
fn write_address(buf: &mut Vec<u8>, at: usize, address: i64)
    requires
        at + 3 <= old(buf).len(),
        -MAX_START * 8 <= address <= MAX_START * 8,
    ensures
        final(buf)@ == put_address(old(buf)@, at as int, address as int),
{
    let a = address24(address);
    buf.set(at, (a / 65536) as u8);
    buf.set(at + 1, ((a / 256) % 256) as u8);
    buf.set(at + 2, (a % 256) as u8);
}

/// The address of a start offset on the wire.
fn wire_address(word_len: i32, start: i64) -> (r: i64)
    requires
        -MAX_START <= start <= MAX_START,
    ensures
        r == address_of(word_len, start as int),
        -MAX_START * 8 <= r <= MAX_START * 8,
{
    if word_len == WL_BIT || word_len == WL_COUNTER || word_len == WL_TIMER {
        start
    } else {
        start * 8
    }
}

/// Builds the read request for `n` elements at `start`.
pub fn read_request(area: Area, db_number: i32, start: i64, n: i64, word_len: i32) -> (r: Vec<u8>)
    requires
        -MAX_START <= start <= MAX_START,
    ensures
        r@ == spec_read_request(area, db_number, start as int, n as int, word_len),
{
    let full = read_write_telegram();
    let mut t: Vec<u8> = Vec::new();
    let mut i: usize = 0;
    while i < 31
        invariant
            i <= 31,
            full@ == spec_read_write_telegram(),
            t@ == full@.subrange(0, i as int),
        decreases 31 - i,
    {
        t.push(full[i]);
        i = i + 1;
    }
    write_u16(&mut t, 25, db_number as u16);
    t.set(27, area.code());
    if word_len == WL_BIT || word_len == WL_COUNTER || word_len == WL_TIMER {
        t.set(22, word_len as u8);
    }
    write_u16(&mut t, 23, n as u16);
    write_address(&mut t, 28, wire_address(word_len, start));
    t
}

/// Builds the write request for `n` elements at `start` carrying `data`.
pub fn write_request(
    area: Area,
    db_number: i32,
    start: i64,
    n: i64,
    word_len: i32,
    data: &[u8],
) -> (r: Vec<u8>)
    requires
        -MAX_START <= start <= MAX_START,
    ensures
        r@ == spec_write_request(area, db_number, start as int, n as int, word_len, data@),
{
    let size = data.len();
    let len: u16 = if word_len == WL_BIT || word_len == WL_COUNTER || word_len == WL_TIMER {
        size as u16
    } else {
        ((size as u128) * 8) as u16
    };
    let mut t = read_write_telegram();
    write_u16(&mut t, 2, ((size as u128) + 35) as u16);
    write_u16(&mut t, 15, len);
    t.set(17, 5);
    if area == Area::DataBausteine {
        write_u16(&mut t, 25, db_number as u16);
    }
    t.set(27, area.code());
    if word_len == WL_BIT || word_len == WL_COUNTER || word_len == WL_TIMER {
        t.set(22, word_len as u8);
    }
    write_u16(&mut t, 23, n as u16);
    write_address(&mut t, 28, wire_address(word_len, start));
    let ts = if word_len == WL_BIT {
        TS_RES_BIT
    } else if word_len == WL_COUNTER || word_len == WL_TIMER {
        TS_RES_OCTET
    } else {
        TS_RES_BYTE
    };
    t.set(32, ts);
    write_u16(&mut t, 33, len);
    let ghost head = t@;
    let mut i: usize = 0;
    while i < size
        invariant
            i <= size,
            size == data@.len(),
            t@ == head + data@.subrange(0, i as int),
        decreases size - i,
    {
        t.push(data[i]);
        i = i + 1;
        assert(t@ =~= head + data@.subrange(0, i as int));
    }
    assert(data@.subrange(0, size as int) =~= data@);
    t
}

/// A transfer after its word length has been settled for the area.
#[derive(Debug, Clone, Copy, PartialEq, Eq, Structural)]
pub struct Job {
    /// Word length sent on the wire: bit, counter, timer or byte.
    pub word_len: i32,
    /// Bytes of one element on the wire.
    pub byte_size: i64,
    /// Number of elements to transfer.
    pub amount: i64,
}

impl Job {
    /// Number of bytes that the transfer moves.
    pub open spec fn total(self) -> int {
        if self.amount > 0 {
            self.amount * self.byte_size
        } else {
            0
        }
    }
}

/// The word length of a transfer: counters and timers have their own, whatever was asked.
pub open spec fn effective_word_len(area: Area, word_len: i32) -> i32 {
    match area {
        Area::Counter => WL_COUNTER,
        Area::Timer => WL_TIMER,
        _ => word_len,
    }
}

/// Settles a transfer of `amount` elements of `word_len` in `area`: one bit per request
/// for bits, two-byte elements for counters and timers, plain bytes for everything else.
/// `None` for an unknown word length.
pub open spec fn spec_normalize(area: Area, amount: i32, word_len: i32) -> Option<Job> {
    let wl = effective_word_len(area, word_len);
    let size = spec_data_size_byte(wl);
    if size == 0 {
        None
    } else if wl == WL_BIT {
        Some(Job { word_len: WL_BIT, byte_size: 1, amount: 1 })
    } else if wl == WL_COUNTER || wl == WL_TIMER {
        Some(Job { word_len: wl, byte_size: 2, amount: amount as i64 })
    } else {
        Some(Job { word_len: WL_BYTE, byte_size: 1, amount: (amount * size) as i64 })
    }
}

/// Settles a transfer; an unknown word length is an invalid data size.
pub fn normalize(area: Area, amount: i32, word_len: i32) -> (r: Result<Job, Error>)
    ensures
        match spec_normalize(area, amount, word_len) {
            Some(j) => r == Ok::<Job, Error>(j),
            None => r == Err::<Job, Error>(Error::Response { code: ISO_INVALID_DATA_SIZE }),
        },
        r matches Ok(j) ==> 1 <= j.byte_size <= 2 && -4 * 0x8000_0000 <= j.amount <= 4 * 0x8000_0000
            && j.total() <= 4 * 0x8000_0000,
{
    let wl = match area {
        Area::Counter => WL_COUNTER,
        Area::Timer => WL_TIMER,
        _ => word_len,
    };
    let size = data_size_byte(wl);
    if size == 0 {
        Err(Error::Response { code: ISO_INVALID_DATA_SIZE })
    } else if wl == WL_BIT {
        Ok(Job { word_len: WL_BIT, byte_size: 1, amount: 1 })
    } else if wl == WL_COUNTER || wl == WL_TIMER {
        Ok(Job { word_len: wl, byte_size: 2, amount: amount as i64 })
    } else {
        assert(-4 * 0x8000_0000 <= amount * size <= 4 * 0x8000_0000) by (nonlinear_arith)
            requires
                1 <= size <= 4,
                -0x8000_0000 <= amount < 0x8000_0000,
        ;
        Ok(Job { word_len: WL_BYTE, byte_size: 1, amount: (amount as i64) * (size as i64) })
    }
}

/// A byte transfer outside the counters and timers moves plain bytes.
pub proof fn lemma_normalize_bytes(area: Area, amount: i32)
    requires
        area != Area::Counter,
        area != Area::Timer,
    ensures
        spec_normalize(area, amount, WL_BYTE) == Some(
            Job { word_len: WL_BYTE, byte_size: 1, amount: amount as i64 },
        ),
        (Job { word_len: WL_BYTE, byte_size: 1, amount: amount as i64 }).total() == if amount > 0 {
            amount as int
        } else {
            0
        },
{
    let size = spec_data_size_byte(WL_BYTE);
    assert(amount * size == amount) by (nonlinear_arith)
        requires
            size == 1,
    ;
    let j = Job { word_len: WL_BYTE, byte_size: 1, amount: amount as i64 };
    assert(j.amount * j.byte_size == j.amount) by (nonlinear_arith)
        requires
            j.byte_size == 1,
    ;
}

/// The requests of a transfer of `amount` elements from `start`, at most `max` elements
/// each: the start and the element count of each, in order.
pub open spec fn plan(start: int, amount: int, byte_size: int, max: int) -> Seq<(int, int)>
    decreases amount,
{
    if amount <= 0 || max < 1 {
        seq![]
    } else {
        let n = if amount < max {
            amount
        } else {
            max
        };
        seq![(start, n)] + plan(start + n * byte_size, amount - n, byte_size, max)
    }
}

/// The data that the answers in `exchanges` deliver to the requests of `chunks`, in order.
pub open spec fn read_data(
    exchanges: Seq<(Seq<u8>, Seq<u8>)>,
    chunks: Seq<(int, int)>,
    byte_size: int,
) -> Seq<u8>
    decreases chunks.len(),
{
    if chunks.len() == 0 {
        seq![]
    } else {
        let i = chunks.len() - 1;
        read_data(exchanges, chunks.drop_last(), byte_size) + exchanges[i].1.subrange(
            READ_REPLY_HEADER as int,
            READ_REPLY_HEADER as int + chunks[i].1 * byte_size,
        )
    }
}

/// `Ok(())` for no error, the error otherwise.
pub open spec fn outcome(e: Option<Error>) -> Result<(), Error> {
    match e {
        Some(e) => Err(e),
        None => Ok(()),
    }
}

/// What is wrong with the answer to a read request for `size` bytes, if anything.
pub open spec fn read_reply_error(reply: Seq<u8>, size: int) -> Option<Error> {
    if reply.len() < READ_REPLY_HEADER {
        Some(Error::Response { code: ISO_INVALID_DATA_SIZE })
    } else if reply[21] != 0xFF {
        Some(Error::CPU { code: reply[21] as i32 })
    } else if reply.len() < READ_REPLY_HEADER + size {
        Some(Error::Response { code: ISO_INVALID_DATA_SIZE })
    } else {
        None
    }
}

/// Checks the answer to a read request for `size` bytes: long enough, and marked as a
/// success at byte 21; otherwise the CPU error code found there.
pub fn check_read_reply(reply: &[u8], size: usize) -> (r: Result<(), Error>)
    ensures
        r == outcome(read_reply_error(reply@, size as int)),
{
    if reply.len() < READ_REPLY_HEADER {
        Err(Error::Response { code: ISO_INVALID_DATA_SIZE })
    } else if reply[21] != 0xFF {
        Err(Error::CPU { code: reply[21] as i32 })
    } else if reply.len() - READ_REPLY_HEADER < size {
        Err(Error::Response { code: ISO_INVALID_DATA_SIZE })
    } else {
        Ok(())
    }
}

/// What is wrong with the answer to a write request, if anything.
pub open spec fn write_reply_error(reply: Seq<u8>) -> Option<Error> {
    if reply.len() != WRITE_REPLY_LEN {
        Some(Error::Response { code: ISO_INVALID_PDU })
    } else if reply[21] != 0xFF {
        Some(Error::CPU { code: reply[21] as i32 })
    } else {
        None
    }
}

/// Checks the answer to a write request: exactly 22 bytes, marked as a success at byte 21.
pub fn check_write_reply(reply: &[u8]) -> (r: Result<(), Error>)
    ensures
        r == outcome(write_reply_error(reply@)),
{
    if reply.len() != WRITE_REPLY_LEN {
        Err(Error::Response { code: ISO_INVALID_PDU })
    } else if reply[21] != 0xFF {
        Err(Error::CPU { code: reply[21] as i32 })
    } else {
        Ok(())
    }
}

/// What is wrong with the answer to a start or stop request, if anything: it must be
/// longer than 19 bytes, carry the `expected` function code at 17, and not the
/// `already_marker` at 18.
pub open spec fn control_reply_error(
    reply: Seq<u8>,
    expected: u8,
    refused: i32,
    already_marker: u8,
    already: i32,
) -> Option<Error> {
    if reply.len() <= TELEGRAM_MIN_RESPONSE {
        Some(Error::Response { code: ISO_INVALID_PDU })
    } else if reply[17] != expected {
        Some(Error::Response { code: refused })
    } else if reply[18] == already_marker {
        Some(Error::Response { code: already })
    } else {
        None
    }
}

/// Checks the answer to a start or stop request.
pub fn check_control_reply(
    reply: &[u8],
    expected: u8,
    refused: i32,
    already_marker: u8,
    already: i32,
) -> (r: Result<(), Error>)
    ensures
        r == outcome(control_reply_error(reply@, expected, refused, already_marker, already)),
{
    if reply.len() <= TELEGRAM_MIN_RESPONSE {
        Err(Error::Response { code: ISO_INVALID_PDU })
    } else if reply[17] != expected {
        Err(Error::Response { code: refused })
    } else if reply[18] == already_marker {
        Err(Error::Response { code: already })
    } else {
        Ok(())
    }
}

/// The CPU status that an answer to the status request reports.
pub open spec fn spec_plc_status(reply: Seq<u8>) -> Result<CpuStatus, Error> {
    if reply.len() < PLC_STATUS_MIN_RESPONSE {
        Err(Error::Response { code: ISO_INVALID_PDU })
    } else if be_u16_at(reply, 27) != 0 {
        Err(Error::CPU { code: be_u16_at(reply, 27) as i32 })
    } else {
        match CpuStatus::spec_from_u8(reply[44]) {
            Some(s) => Ok(s),
            None => Err(Error::InvalidCpuStatus(reply[44])),
        }
    }
}

/// Reads the CPU status from the answer to the status request.
pub fn parse_plc_status(reply: &[u8]) -> (r: Result<CpuStatus, Error>)
    ensures
        r == spec_plc_status(reply@),
{
    if reply.len() < PLC_STATUS_MIN_RESPONSE {
        return Err(Error::Response { code: ISO_INVALID_PDU });
    }
    let result = read_u16(reply, 27);
    if result != 0 {
        return Err(Error::CPU { code: result as i32 });
    }
    CpuStatus::from_u8(reply[44])
}

/// The first request of a system status list read.
pub open spec fn spec_szl_first_request(id: u16, index: u16) -> Seq<u8> {
    put_be_u16(put_be_u16(put_be_u16(spec_szl_first_telegram(), 11, 1), 29, id), 31, index)
}

/// Builds the first request of a system status list read.
pub fn szl_first_request(id: u16, index: u16) -> (r: Vec<u8>)
    ensures
        r@ == spec_szl_first_request(id, index),
{
    let mut t = szl_first_telegram();
    write_u16(&mut t, 11, 1);
    write_u16(&mut t, 29, id);
    write_u16(&mut t, 31, index);
    t
}

/// The follow-up request of a system status list read, naming the last sequence number.
pub open spec fn spec_szl_next_request(seq_in: u8) -> Seq<u8> {
    spec_szl_next_telegram().update(24, seq_in)
}

/// Builds the follow-up request of a system status list read.
pub fn szl_next_request(seq_in: u8) -> (r: Vec<u8>)
    ensures
        r@ == spec_szl_next_request(seq_in),
{
    let mut t = szl_next_telegram();
    t.set(24, seq_in);
    t
}

/// Number of data bytes announced by an answer to a system status list request,
/// with the ID and index counted in.
pub open spec fn szl_announced(reply: Seq<u8>) -> int {
    be_u16_at(reply, 31) as int
}

/// What is wrong with an answer to a system status list request, if anything.
pub open spec fn szl_reply_error(reply: Seq<u8>) -> Option<Error> {
    if reply.len() < MIN_SZL_FIRST_TELEGRAM {
        Some(Error::Response { code: ISO_INVALID_PDU })
    } else if !(be_u16_at(reply, 27) == 0 && reply[29] == 0xFF) {
        Some(Error::CPU { code: CLI_INVALID_PLC_ANSWER })
    } else if szl_announced(reply) < 8 {
        Some(Error::CPU { code: CLI_INVALID_PLC_ANSWER })
    } else if reply.len() < MIN_SZL_FIRST_TELEGRAM + szl_announced(reply) - 8 {
        Some(Error::Response { code: ISO_INVALID_PDU })
    } else {
        None
    }
}

/// The data records that an answer to a system status list request carries.
pub open spec fn szl_reply_data(reply: Seq<u8>) -> Seq<u8> {
    reply.subrange(41, 41 + szl_announced(reply) - 8)
}

/// Whether an answer to a system status list request is the last one.
pub open spec fn szl_reply_done(reply: Seq<u8>) -> bool {
    reply[26] == 0
}

/// One answer to a system status list request.
#[derive(Debug, Clone)]
pub struct SzlFragment {
    /// The data records it carries.
    pub data: Vec<u8>,
    /// Whether it is the last answer.
    pub done: bool,
    /// Its sequence number, for the next request.
    pub seq_in: u8,
}

/// Checks an answer to a system status list request and takes its data records.
pub fn parse_szl_fragment(reply: &[u8]) -> (r: Result<SzlFragment, Error>)
    ensures
        match szl_reply_error(reply@) {
            Some(e) => r == Err::<SzlFragment, Error>(e),
            None => r matches Ok(f) && f.data@ == szl_reply_data(reply@) && f.done == szl_reply_done(
                reply@,
            ) && f.seq_in == reply@[24],
        },
{
    let len = reply.len();
    if len < MIN_SZL_FIRST_TELEGRAM {
        return Err(Error::Response { code: ISO_INVALID_PDU });
    }
    if !(read_u16(reply, 27) == 0 && reply[29] == 0xFF) {
        return Err(Error::CPU { code: CLI_INVALID_PLC_ANSWER });
    }
    let announced = read_u16(reply, 31) as usize;
    if announced < 8 {
        return Err(Error::CPU { code: CLI_INVALID_PLC_ANSWER });
    }
    let data_len = announced - 8;
    if len - MIN_SZL_FIRST_TELEGRAM < data_len {
        return Err(Error::Response { code: ISO_INVALID_PDU });
    }
    let mut data: Vec<u8> = Vec::new();
    let mut j: usize = 0;
    while j < data_len
        invariant
            j <= data_len,
            41 + data_len <= reply@.len(),
            reply@.len() == len,
            data@ == reply@.subrange(41, 41 + j),
        decreases data_len - j,
    {
        data.push(reply[41 + j]);
        j = j + 1;
        assert(data@ =~= reply@.subrange(41, 41 + j));
    }
    Ok(SzlFragment { data, done: reply[26] == 0, seq_in: reply[24] })
}

/// The header of a system status list: the big-endian words at 37 and 39 of its first
/// answer.
pub open spec fn spec_szl_header(reply: Seq<u8>) -> SZLHeader {
    SZLHeader {
        length_header: be_u16_at(reply, 37),
        number_of_data_record: be_u16_at(reply, 39),
    }
}

/// Reads the header of a system status list from its first answer: the two big-endian
/// words at 37 and 39, the record length and the number of records.
pub fn szl_header(reply: &[u8]) -> (r: SZLHeader)
    requires
        reply@.len() >= 41,
    ensures
        r == spec_szl_header(reply@),
{
    SZLHeader {
        length_header: read_u16(reply, 37),
        number_of_data_record: read_u16(reply, 39),
    }
}

/// A transfer of `amount` elements, at most `max` per request, takes `amount / max`
/// requests rounded up.
pub proof fn lemma_plan_len(start: int, amount: int, byte_size: int, max: int)
    requires
        amount >= 0,
        max >= 1,
    ensures
        plan(start, amount, byte_size, max).len() == (amount + max - 1) / max,
    decreases amount,
{
    if amount == 0 {
        lemma_fundamental_div_mod_converse(max - 1, max, 0, max - 1);
    } else if amount <= max {
        lemma_fundamental_div_mod_converse(amount + max - 1, max, 1, amount - 1);
        assert(plan(start + amount * byte_size, 0, byte_size, max).len() == 0);
    } else {
        lemma_plan_len(start + max * byte_size, amount - max, byte_size, max);
        let x = amount - 1;
        lemma_fundamental_div_mod(x, max);
        let q = x / max;
        let r = x % max;
        assert(x + max == (q + 1) * max + r) by (nonlinear_arith)
            requires
                x == max * q + r,
        ;
        lemma_fundamental_div_mod_converse(x + max, max, q + 1, r);
    }
}

/// The address that a read or write request names, from its bytes 28 to 30.
pub open spec fn request_address(req: Seq<u8>) -> int {
    req[28] as int * 65536 + req[29] as int * 256 + req[30] as int
}

/// The element count that a read or write request names, from its bytes 23 and 24.
pub open spec fn request_count(req: Seq<u8>) -> int {
    be_u16_at(req, 23) as int
}

/// The data that a write request carries.
pub open spec fn request_data(req: Seq<u8>) -> Seq<u8> {
    req.subrange(SIZE_HEADER_WRITE as int, req.len() as int)
}

/// A three-byte address stored by `put_address` reads back as itself.
proof fn lemma_address_bytes(b: Seq<u8>, at: int, address: int)
    requires
        0 <= at,
        at + 3 <= b.len(),
        0 <= address < ADDRESS_SPACE,
    ensures
        put_address(b, at, address).len() == b.len(),
        put_address(b, at, address)[at] as int * 65536 + put_address(b, at, address)[at + 1] as int
            * 256 + put_address(b, at, address)[at + 2] as int == address,
{
    let a = address;
    lemma_fundamental_div_mod(a, 256);
    lemma_fundamental_div_mod(a / 256, 256);
    vstd::arithmetic::div_mod::lemma_div_denominator(a, 256, 256);
    assert(a == (a / 65536) * 65536 + ((a / 256) % 256) * 256 + a % 256) by (nonlinear_arith)
        requires
            a == 256 * (a / 256) + a % 256,
            a / 256 == 256 * ((a / 256) / 256) + (a / 256) % 256,
            (a / 256) / 256 == a / 65536,
    ;
    vstd::arithmetic::div_mod::lemma_div_is_ordered(a, ADDRESS_SPACE as int - 1, 65536);
}

/// A byte read request names its start in bits and its count.
pub proof fn lemma_read_request_fields(area: Area, db_number: i32, start: int, n: int)
    requires
        0 <= start,
        start * 8 < ADDRESS_SPACE,
        0 <= n < 65536,
    ensures
        request_address(spec_read_request(area, db_number, start, n, WL_BYTE)) == start * 8,
        request_count(spec_read_request(area, db_number, start, n, WL_BYTE)) == n,
{
    let t = spec_read_write_telegram().subrange(0, 31);
    let t = put_be_u16(t, 25, db_number as u16);
    let t = t.update(27, area.spec_code());
    let t = put_be_u16(t, 23, n as u16);
    lemma_address_bytes(t, 28, start * 8);
}

/// A byte write request names its start in bits and its count, and carries its data.
pub proof fn lemma_write_request_fields(area: Area, db_number: i32, start: int, n: int, data: Seq<u8>)
    requires
        0 <= start,
        start * 8 < ADDRESS_SPACE,
        0 <= n < 65536,
    ensures
        request_address(spec_write_request(area, db_number, start, n, WL_BYTE, data)) == start * 8,
        request_count(spec_write_request(area, db_number, start, n, WL_BYTE, data)) == n,
        request_data(spec_write_request(area, db_number, start, n, WL_BYTE, data)) == data,
{
    let len = length_field(WL_BYTE, data.len() as int);
    let t = spec_read_write_telegram();
    let t = put_be_u16(t, 2, (35 + data.len()) as u16);
    let t = put_be_u16(t, 15, len);
    let t = t.update(17, 5);
    let t = if area == Area::DataBausteine {
        put_be_u16(t, 25, db_number as u16)
    } else {
        t
    };
    let t = t.update(27, area.spec_code());
    let t = put_be_u16(t, 23, n as u16);
    lemma_address_bytes(t, 28, start * 8);
    let u = put_address(t, 28, start * 8);
    let w = put_be_u16(u.update(32, transport_size(WL_BYTE)), 33, len);
    assert(w.len() == 35);
    assert((w + data).subrange(35, (w + data).len() as int) =~= data);
}

} // verus!
