//! The ISO-on-TCP session: connection options, TSAPs, the handshake telegrams and the
//! TPKT framing decisions. The socket itself is driven by the caller.
use vstd::prelude::*;
use vstd::string::StringExecFns;
use core::time::Duration;
use crate::codec::{be_u16_at, hi_byte, lo_byte, put_be_u16, read_u16, write_u16};
use crate::error::{Error, CLI_NEGOTIATING_PDU};
use crate::transport::{
    iso_connection_request_telegram, pdu_negotiation_telegram,
    spec_iso_connection_request_telegram, spec_pdu_negotiation_telegram, Connection,
    CONFIRM_CONNECTION,
};

verus! {

/// Relies on `Duration::from_secs`, which builds a duration of whole seconds and never fails.
pub assume_specification[ core::time::Duration::from_secs ](secs: u64) -> core::time::Duration;

/// Largest frame that the receive buffer holds.
pub const MAX_LENGTH: usize = 2084;
/// PDU length that the client asks for.
pub const PDU_SIZE_REQUESTED: u16 = 480;
/// Default ISO-on-TCP port.
pub const ISO_TCP: u16 = 102;
/// Size of the TPKT and COTP headers.
pub const ISO_HEADER_SIZE: usize = 7;
/// Smallest frame that carries an S7 PDU.
pub const MIN_PDU_SIZE: usize = 16;
/// Size of the TPKT header.
pub const TPKT_HEADER_SIZE: usize = 4;
/// Local TSAP of the client.
pub const LOCAL_TSAP: u16 = 0x0100;
/// Length of an ISO connection confirm.
pub const CONNECTION_CONFIRM_LEN: usize = 22;
/// Length of the answer to the PDU negotiation.
pub const NEGOTIATION_REPLY_LEN: usize = 27;

/// Options of a connection to a controller.
#[derive(Debug)]
pub struct Options {
    /// Timeout of the TCP connect, if any.
    pub connection_timeout: Option<Duration>,
    /// Timeout of each socket read.
    pub read_timeout: Duration,
    /// Timeout of each socket write.
    pub write_timeout: Duration,
    address: String,
    /// Role of the connection.
    pub conn_type: Connection,
    rack: u16,
    slot: u16,
}

impl Options {
    /// The socket address, `host:port`.
    pub closed spec fn spec_address(&self) -> Seq<char> {
        self.address@
    }

    /// The role of the connection.
    pub closed spec fn spec_conn_type(&self) -> Connection {
        self.conn_type
    }

    /// The rack of the CPU.
    pub closed spec fn spec_rack(&self) -> u16 {
        self.rack
    }

    /// The slot of the CPU.
    pub closed spec fn spec_slot(&self) -> u16 {
        self.slot
    }

    /// Options for the controller at `address` (a host name or IP address) on the
    /// ISO-on-TCP port, with the CPU in `rack` and `slot`.
    pub fn new(address: String, rack: u16, slot: u16, conn_type: Connection) -> (r: Options)
        ensures
            r.spec_address() == address@ + ":102"@,
            r.spec_rack() == rack,
            r.spec_slot() == slot,
            r.spec_conn_type() == conn_type,
    {
        Options {
            connection_timeout: None,
            read_timeout: Duration::from_secs(0),
            write_timeout: Duration::from_secs(0),
            address: address.concat(":102"),
            conn_type,
            rack,
            slot,
        }
    }

    /// The socket address, `host:port`.
    pub fn address(&self) -> (r: &str)
        ensures
            r@ == self.spec_address(),
    {
        self.address.as_str()
    }

    /// The rack of the CPU.
    pub fn rack(&self) -> (r: u16)
        ensures
            r == self.spec_rack(),
    {
        self.rack
    }

    /// The slot of the CPU.
    pub fn slot(&self) -> (r: u16)
        ensures
            r == self.spec_slot(),
    {
        self.slot
    }

    /// The remote TSAP of these options.
    pub fn remote_tsap(&self) -> (r: u16)
        ensures
            r == spec_remote_tsap(self.spec_conn_type(), self.spec_rack(), self.spec_slot()),
    {
        remote_tsap(self.conn_type, self.rack, self.slot)
    }
}

/// The remote TSAP: the role code in the high byte, plus 32 times the rack and the slot,
/// taken modulo 2^16.
pub open spec fn spec_remote_tsap(conn: Connection, rack: u16, slot: u16) -> u16 {
    ((conn.spec_code() as int * 256 + rack as int * 32 + slot as int) % 65536) as u16
}

/// Computes the remote TSAP of a role, rack and slot.
pub fn remote_tsap(conn: Connection, rack: u16, slot: u16) -> (r: u16)
    ensures
        r == spec_remote_tsap(conn, rack, slot),
{
    let sum: u64 = conn.code() as u64 * 256 + rack as u64 * 32 + slot as u64;
    (sum % 65536) as u16
}

/// The ISO connection request between the two TSAPs.
pub open spec fn spec_connection_request(local_tsap: u16, remote_tsap: u16) -> Seq<u8> {
    spec_iso_connection_request_telegram().update(16, hi_byte(local_tsap)).update(
        17,
        lo_byte(local_tsap),
    ).update(20, hi_byte(remote_tsap)).update(21, lo_byte(remote_tsap))
}

/// Builds the ISO connection request between the two TSAPs.
pub fn connection_request(local_tsap: u16, remote_tsap: u16) -> (r: Vec<u8>)
    ensures
        r@ == spec_connection_request(local_tsap, remote_tsap),
{
    let mut t = iso_connection_request_telegram();
    t.set(16, (local_tsap / 256) as u8);
    t.set(17, (local_tsap % 256) as u8);
    t.set(20, (remote_tsap / 256) as u8);
    t.set(21, (remote_tsap % 256) as u8);
    t
}

/// What the answer to the connection request says: a confirm of 22 bytes whose PDU
/// type, at 5, is a connection confirm.
pub open spec fn spec_connection_confirm(reply: Seq<u8>) -> Result<(), Error> {
    if reply.len() != CONNECTION_CONFIRM_LEN {
        Err(Error::PduLength(reply.len() as i32))
    } else if reply[5] != CONFIRM_CONNECTION {
        Err(Error::Iso)
    } else {
        Ok(())
    }
}

/// Checks the answer to the connection request.
pub fn check_connection_confirm(reply: &[u8]) -> (r: Result<(), Error>)
    ensures
        r == spec_connection_confirm(reply@),
{
    if reply.len() != CONNECTION_CONFIRM_LEN {
        Err(Error::PduLength(reply.len() as i32))
    } else if reply[5] != CONFIRM_CONNECTION {
        Err(Error::Iso)
    } else {
        Ok(())
    }
}

/// The PDU negotiation request, asking for 480 bytes.
pub open spec fn spec_negotiation_request() -> Seq<u8> {
    put_be_u16(spec_pdu_negotiation_telegram(), 23, PDU_SIZE_REQUESTED)
}

/// Builds the PDU negotiation request.
pub fn negotiation_request() -> (r: Vec<u8>)
    ensures
        r@ == spec_negotiation_request(),
{
    let mut t = pdu_negotiation_telegram();
    write_u16(&mut t, 23, PDU_SIZE_REQUESTED);
    t
}

/// The PDU length that the answer to the negotiation grants: 27 bytes, no error at 17
/// and 18, and a positive length at 25.
pub open spec fn spec_negotiated_pdu(reply: Seq<u8>) -> Result<i32, Error> {
    if reply.len() == NEGOTIATION_REPLY_LEN && reply[17] == 0 && reply[18] == 0 && be_u16_at(
        reply,
        25,
    ) > 0 {
        Ok(be_u16_at(reply, 25) as i32)
    } else {
        Err(Error::Response { code: CLI_NEGOTIATING_PDU })
    }
}

/// Reads the PDU length from the answer to the negotiation.
pub fn negotiated_pdu(reply: &[u8]) -> (r: Result<i32, Error>)
    ensures
        r == spec_negotiated_pdu(reply@),
{
    if reply.len() == NEGOTIATION_REPLY_LEN && reply[17] == 0 && reply[18] == 0 {
        let pdu = read_u16(reply, 25);
        if pdu > 0 {
            return Ok(pdu as i32);
        }
    }
    Err(Error::Response { code: CLI_NEGOTIATING_PDU })
}

/// Where the opening of a session stands.
#[derive(Debug, Clone, Copy, PartialEq, Eq, Structural)]
pub enum Handshake {
    /// The connection request is out; its confirm is awaited.
    IsoWait,
    /// The PDU negotiation is out; its answer is awaited.
    PduWait,
}

/// What the opener of a session does next.
#[derive(Debug)]
pub enum HandshakeAction {
    /// Send this request and hand its answer to the next step.
    Send(Vec<u8>),
    /// The session is open with this PDU length.
    Ready(i32),
    /// The session cannot be opened.
    Fail(Error),
}

impl Handshake {
    /// Starts opening a session: the connection request with the local TSAP and the
    /// remote TSAP of `options`.
    pub fn start(options: &Options) -> (r: (Handshake, Vec<u8>))
        ensures
            r.0 == Handshake::IsoWait,
            r.1@ == spec_connection_request(
                LOCAL_TSAP,
                spec_remote_tsap(options.spec_conn_type(), options.spec_rack(), options.spec_slot()),
            ),
    {
        (Handshake::IsoWait, connection_request(LOCAL_TSAP, options.remote_tsap()))
    }

    /// Takes the answer to the last request: a confirmed connection goes on to the PDU
    /// negotiation, a granted PDU length opens the session, anything else fails.
    pub fn step(self, reply: &[u8]) -> (r: (Option<Handshake>, HandshakeAction))
        ensures
            match self {
                Handshake::IsoWait => match spec_connection_confirm(reply@) {
                    Ok(()) => r.0 == Some(Handshake::PduWait) && (r.1 matches HandshakeAction::Send(
                        v,
                    ) && v@ == spec_negotiation_request()),
                    Err(e) => r.0 == None::<Handshake> && r.1 == HandshakeAction::Fail(e),
                },
                Handshake::PduWait => r.0 == None::<Handshake> && match spec_negotiated_pdu(reply@) {
                    Ok(pdu) => r.1 == HandshakeAction::Ready(pdu),
                    Err(e) => r.1 == HandshakeAction::Fail(e),
                },
            },
    {
        match self {
            Handshake::IsoWait => match check_connection_confirm(reply) {
                Ok(()) => (Some(Handshake::PduWait), HandshakeAction::Send(negotiation_request())),
                Err(e) => (None, HandshakeAction::Fail(e)),
            },
            Handshake::PduWait => match negotiated_pdu(reply) {
                Ok(pdu) => (None, HandshakeAction::Ready(pdu)),
                Err(e) => (None, HandshakeAction::Fail(e)),
            },
        }
    }
}

/// What the receiver of a frame does next, given the bytes received so far.
#[derive(Debug, Clone, PartialEq, Eq)]
pub enum FrameStep {
    /// Read exactly this many more bytes.
    Need(usize),
    /// The frame is the `len` bytes received from `start`.
    Frame { start: usize, len: usize },
    /// The stream holds a frame length out of range.
    Fail(i32),
}

/// The TPKT length of the frame that starts at `at`.
pub open spec fn tpkt_len(received: Seq<u8>, at: int) -> int {
    be_u16_at(received, at + 2) as int
}

/// What the receiver does next once it has `received` from `at` on: it skips bare
/// 7-byte COTP frames, and takes the first frame of 16 to 487 bytes whole.
pub open spec fn spec_frame_step(received: Seq<u8>, at: int) -> FrameStep
    decreases received.len() - at,
{
    if at < 0 || received.len() < at + TPKT_HEADER_SIZE {
        FrameStep::Need((at + TPKT_HEADER_SIZE - received.len()) as usize)
    } else if tpkt_len(received, at) == ISO_HEADER_SIZE {
        if received.len() < at + ISO_HEADER_SIZE {
            FrameStep::Need((at + ISO_HEADER_SIZE - received.len()) as usize)
        } else {
            spec_frame_step(received, at + ISO_HEADER_SIZE)
        }
    } else if tpkt_len(received, at) < MIN_PDU_SIZE || tpkt_len(received, at)
        > PDU_SIZE_REQUESTED + ISO_HEADER_SIZE {
        FrameStep::Fail(tpkt_len(received, at) as i32)
    } else if received.len() < at + tpkt_len(received, at) {
        FrameStep::Need((at + tpkt_len(received, at) - received.len()) as usize)
    } else {
        FrameStep::Frame { start: at as usize, len: tpkt_len(received, at) as usize }
    }
}

/// Decides what the receiver of a frame does next, given all bytes received for it.
/// A frame length out of range is an error.
pub fn frame_step(received: &[u8]) -> (r: FrameStep)
    ensures
        r == spec_frame_step(received@, 0),
{
    let len = received.len();
    let mut at: usize = 0;
    while at <= len
        invariant
            received@.len() == len,
            at <= len,
            spec_frame_step(received@, 0) == spec_frame_step(received@, at as int),
        decreases len - at,
    {
        if len - at < TPKT_HEADER_SIZE {
            return FrameStep::Need(TPKT_HEADER_SIZE - (len - at));
        }
        let l = read_u16_len(received, at);
        if l == ISO_HEADER_SIZE {
            if len - at < ISO_HEADER_SIZE {
                return FrameStep::Need(ISO_HEADER_SIZE - (len - at));
            }
            at = at + ISO_HEADER_SIZE;
        } else if l < MIN_PDU_SIZE || l > PDU_SIZE_REQUESTED as usize + ISO_HEADER_SIZE {
            return FrameStep::Fail(l as i32);
        } else if len - at < l {
            return FrameStep::Need(l - (len - at));
        } else {
            return FrameStep::Frame { start: at, len: l };
        }
    }
    FrameStep::Need(TPKT_HEADER_SIZE)
}

/// The TPKT length of the frame that starts at `at`.
fn read_u16_len(received: &[u8], at: usize) -> (r: usize)
    requires
        at + TPKT_HEADER_SIZE <= received.len(),
    ensures
        r == tpkt_len(received@, at as int),
{
    read_u16(received, at + 2) as usize
}

/// Whether `s` is a run of `k` bare 7-byte COTP frames.
pub open spec fn keepalives(s: Seq<u8>, k: nat) -> bool {
    &&& s.len() == ISO_HEADER_SIZE * k
    &&& forall|j: int| 0 <= j < k ==> #[trigger] tpkt_len(s, ISO_HEADER_SIZE * j) == ISO_HEADER_SIZE
}

/// Whether `f` is one well-formed frame: its TPKT length is its length, 16 to 487 bytes.
pub open spec fn well_formed_frame(f: Seq<u8>) -> bool {
    &&& f.len() >= TPKT_HEADER_SIZE
    &&& tpkt_len(f, 0) == f.len()
    &&& MIN_PDU_SIZE <= f.len() <= PDU_SIZE_REQUESTED + ISO_HEADER_SIZE
}

/// From keepalive `j` on, the receiver skips the rest and takes the frame after them.
proof fn lemma_skip_keepalives(s: Seq<u8>, k: nat, f: Seq<u8>, j: nat)
    requires
        keepalives(s, k),
        well_formed_frame(f),
        j <= k,
    ensures
        spec_frame_step(s + f, ISO_HEADER_SIZE * j) == (FrameStep::Frame {
            start: (ISO_HEADER_SIZE * k) as usize,
            len: f.len() as usize,
        }),
    decreases k - j,
{
    let all = s + f;
    let at = ISO_HEADER_SIZE * j;
    if j == k {
        assert(all.subrange(at as int, all.len() as int) =~= f);
        assert(all[at + 2] == f[2] && all[at + 3] == f[3]);
    } else {
        assert(tpkt_len(s, at as int) == ISO_HEADER_SIZE);
        assert(all[at + 2] == s[at + 2] && all[at + 3] == s[at + 3]);
        lemma_skip_keepalives(s, k, f, j + 1);
        assert(ISO_HEADER_SIZE * (j + 1) == at + ISO_HEADER_SIZE);
    }
}

/// A well-formed frame is received whole, whatever number of bare COTP frames comes
/// before it: the receiver skips them and takes exactly the frame's bytes.
pub proof fn law_frame_received(s: Seq<u8>, k: nat, f: Seq<u8>)
    requires
        keepalives(s, k),
        well_formed_frame(f),
    ensures
        spec_frame_step(s + f, 0) == (FrameStep::Frame { start: s.len() as usize, len: f.len() as usize }),
        (s + f).subrange(s.len() as int, (s + f).len() as int) == f,
{
    lemma_skip_keepalives(s, k, f, 0);
    assert((s + f).subrange(s.len() as int, (s + f).len() as int) =~= f);
}

/// From keepalive `j` on, a receiver that holds the first `m` bytes asks for more, and
/// for no byte past the frame's end.
proof fn lemma_prefix_steps(s: Seq<u8>, k: nat, f: Seq<u8>, j: nat, m: int)
    requires
        keepalives(s, k),
        well_formed_frame(f),
        j <= k,
        ISO_HEADER_SIZE * j <= m < s.len() + f.len(),
    ensures
        spec_frame_step((s + f).subrange(0, m), ISO_HEADER_SIZE * j) matches FrameStep::Need(n)
            && n >= 1 && m + n <= s.len() + f.len(),
    decreases k - j,
{
    let all = s + f;
    let p = all.subrange(0, m);
    let at = ISO_HEADER_SIZE * j;
    if m < at + TPKT_HEADER_SIZE {
    } else if j == k {
        assert(p[at + 2] == f[2] && p[at + 3] == f[3]);
    } else {
        assert(tpkt_len(s, at as int) == ISO_HEADER_SIZE);
        assert(p[at + 2] == s[at + 2] && p[at + 3] == s[at + 3]);
        if m >= at + ISO_HEADER_SIZE {
            lemma_prefix_steps(s, k, f, j + 1, m);
            assert(ISO_HEADER_SIZE * (j + 1) == at + ISO_HEADER_SIZE);
        }
    }
}

/// A receiver that reads only what it is asked for never reads past the frame: until
/// the bare COTP frames and the frame are all in, it asks for at least one byte more and
/// for none beyond the frame's end, so the stream after the frame stays untouched.
pub proof fn law_frame_reads_stay_inside(s: Seq<u8>, k: nat, f: Seq<u8>, m: int)
    requires
        keepalives(s, k),
        well_formed_frame(f),
        0 <= m < (s + f).len(),
    ensures
        spec_frame_step((s + f).subrange(0, m), 0) matches FrameStep::Need(n) && n >= 1 && m + n
            <= (s + f).len(),
{
    lemma_prefix_steps(s, k, f, 0, m);
}

} // verus!
