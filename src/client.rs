//! The S7 client: the read/write job engine, CPU control and diagnostics.
use vstd::prelude::*;
use crate::codec::{copy_into, sub_vec};
use crate::constant::{Area, CpuStatus, WL_BYTE};
use crate::error::{
    CLI_ALREADY_RUN, CLI_ALREADY_STOP, CLI_CANNOT_START_PLC, CLI_CANNOT_STOP_PLC,
    CLI_INVALID_PLC_ANSWER, Error,
};
use crate::exchange::{
    Failure,
    added, extends, lemma_max_elements_positive, lemma_read_data_prefix, max_elements,
    read_exchanges_follow, read_outcome, read_replies_ok, single_outcome, szl_data,
    szl_exchanges_follow, szl_job_outcome, szl_outcome, write_exchanges_follow, write_outcome,
    write_replies_ok, CPU_INFO_SZL_ID, CP_INFO_SZL_ID, Exchange, SZL_MAX_FRAGMENTS,
};
use crate::info::{cp_info_from_szl, cpu_info_from_szl, cpu_info_result, spec_cp_info};
use crate::pdu::{
    check_control_reply, check_read_reply, check_write_reply, control_reply_error,
    lemma_normalize_bytes, normalize, outcome, parse_plc_status, parse_szl_fragment, plan,
    read_data, read_request, spec_normalize, spec_plc_status, spec_szl_header, szl_first_request,
    szl_header, szl_next_request, szl_reply_data, szl_reply_done, szl_reply_error, write_request,
    READ_PDU_OVERHEAD, READ_REPLY_HEADER, WRITE_PDU_OVERHEAD,
};
use crate::transport::{
    cold_start_telegram, plc_status_telegram, spec_cold_start_telegram, spec_plc_status_telegram,
    spec_stop_telegram, spec_warm_start_telegram, stop_telegram, warm_start_telegram,
    PDU_ALREADY_STARTED, PDU_ALREADY_STOPPED, PDU_START, PDU_STOP, S7SZL, Transport,
};
pub use crate::info::{CPInfo, CpuInfo};

verus! {

/// A client of one controller, over a transport whose session is open.
pub struct Client<T: Transport> {
    transport: T,
    pdu_length: i32,
    log: Ghost<Seq<Exchange>>,
    failed: Ghost<Seq<Failure>>,
}

impl<T: Transport> Client<T> {
    /// Every exchange with the controller so far, in order.
    pub closed spec fn history(&self) -> Seq<Exchange> {
        self.log@
    }

    /// Every request whose sending failed so far, with the transport's error, in order.
    pub closed spec fn failures(&self) -> Seq<Failure> {
        self.failed@
    }

    /// The PDU length that the session negotiated.
    pub closed spec fn spec_pdu_length(&self) -> i32 {
        self.pdu_length
    }

    /// Opens the session on `transport` and keeps the PDU length it negotiated.
    pub fn new(transport: T) -> (r: Result<Client<T>, Error>)
        ensures
            r matches Ok(c) ==> c.history() == Seq::<Exchange>::empty() && c.failures() == Seq::<
                Failure,
            >::empty(),
    {
        let mut transport = transport;
        match transport.negotiate() {
            Ok(()) => {
                let pdu_length = transport.pdu_length();
                Ok(Client { transport, pdu_length, log: Ghost(Seq::empty()), failed: Ghost(Seq::empty()) })
            },
            Err(e) => Err(e),
        }
    }

    /// The PDU length that the session negotiated.
    pub fn pdu_length(&self) -> (r: i32)
        ensures
            r == self.spec_pdu_length(),
    {
        self.pdu_length
    }

    /// Sends one request and returns its answer.
    fn exchange(&mut self, request: Vec<u8>) -> (r: Result<Vec<u8>, Error>)
        ensures
            final(self).spec_pdu_length() == old(self).spec_pdu_length(),
            match r {
                Ok(reply) => final(self).history() == old(self).history().push((request@, reply@))
                    && final(self).failures() == old(self).failures(),
                Err(e) => final(self).history() == old(self).history() && final(self).failures()
                    == old(self).failures().push((request@, e)),
            },
    {
        match self.transport.send(request.as_slice()) {
            Ok(reply) => {
                self.log = Ghost(self.log@.push((request@, reply@)));
                Ok(reply)
            },
            Err(e) => {
                self.failed = Ghost(self.failed@.push((request@, e)));
                Err(e)
            },
        }
    }

    /// Reads `amount` elements of `word_len` from `area` at `start` into the front of
    /// `buffer`, in as many requests as the PDU length asks for.
    #[verifier::spinoff_prover]
    #[verifier::rlimit(40)]
    pub fn read(
        &mut self,
        area: Area,
        db_number: i32,
        start: i32,
        amount: i32,
        word_len: i32,
        buffer: &mut Vec<u8>,
    ) -> (r: Result<(), Error>)
        requires
            spec_normalize(area, amount, word_len) matches Some(j) ==> j.total() <= old(
                buffer,
            )@.len(),
        ensures
            final(self).spec_pdu_length() == old(self).spec_pdu_length(),
            read_outcome(
                area,
                db_number,
                start,
                amount,
                word_len,
                old(self).spec_pdu_length(),
                old(self).history(),
                final(self).history(),
                old(self).failures(),
                final(self).failures(),
                old(buffer)@,
                final(buffer)@,
                r,
            ),
    {
        let job = match normalize(area, amount, word_len) {
            Ok(j) => j,
            Err(e) => return Err(e),
        };
        let pdu = self.pdu_length;
        let bs = job.byte_size;
        let room: i64 = pdu as i64 - READ_PDU_OVERHEAD as i64;
        proof {
            lemma_max_elements_positive(room as int, bs as int);
        }
        if room < bs {
            return Err(Error::PduLength(pdu));
        }
        let max: i64 = room / bs;
        let ghost h0 = self.history();
        let ghost f0 = self.failures();
        assert(added(h0, self.history()) =~= Seq::<Exchange>::empty());
        let ghost b0 = buffer@;
        let ghost chunks = plan(start as int, job.amount as int, bs as int, max as int);
        let ghost total = job.total();
        let ghost mut k: int = 0;
        let blen = buffer.len();
        let mut cur: i64 = start as i64;
        let mut rem: i64 = job.amount;
        let mut offset: usize = 0;
        assert(chunks =~= chunks.subrange(0, 0) + plan(cur as int, rem as int, bs as int, max as int));
        while rem > 0
            invariant
                spec_normalize(area, amount, word_len) == Some(job),
                pdu == old(self).spec_pdu_length(),
                h0 == old(self).history(),
                f0 == old(self).failures(),
                self.failures() == f0,
                b0 == old(buffer)@,
                b0.len() == blen,
                1 <= bs <= 2,
                bs == job.byte_size,
                total <= 4 * 0x8000_0000,
                rem >= 0 || rem == job.amount,
                max >= 1,
                max == max_elements(self.spec_pdu_length(), READ_PDU_OVERHEAD, bs as int),
                self.spec_pdu_length() == pdu,
                -0x8000_0000 <= start < 0x8000_0000,
                job.amount <= 4 * 0x8000_0000,
                total == job.total(),
                total <= b0.len(),
                chunks == plan(start as int, job.amount as int, bs as int, max as int),
                0 <= k <= chunks.len(),
                chunks == chunks.subrange(0, k) + plan(cur as int, rem as int, bs as int, max as int),
                offset == cur - start,
                rem > 0 ==> offset + rem * bs == total,
                rem <= 0 ==> offset == total,
                rem <= job.amount,
                self.history().len() == h0.len() + k,
                extends(h0, self.history()),
                read_exchanges_follow(area, db_number, job, chunks, added(h0, self.history())),
                read_replies_ok(job, chunks, added(h0, self.history())),
                buffer@.len() == b0.len(),
                buffer@ == read_data(added(h0, self.history()), chunks.subrange(0, k), bs as int)
                    + b0.subrange(offset as int, b0.len() as int),
            decreases rem,
        {
            let n: i64 = if rem < max { rem } else { max };
            assert(n * bs <= rem * bs && (rem - n) * bs == rem * bs - n * bs) by (nonlinear_arith)
                requires
                    1 <= n <= rem,
                    1 <= bs <= 2,
            ;
            let size: usize = (n * bs) as usize;
            let ghost h1 = self.history();
            assert(chunks[k] == (cur as int, n as int));
            let request = read_request(area, db_number, cur, n, job.word_len);
            let ghost req = request@;
            let reply = match self.exchange(request) {
                Ok(reply) => reply,
                Err(e) => {
                    assert(added(h0, self.history()) =~= added(h0, h1));
                    assert(added(f0, self.failures()) =~= seq![(req, e)]);
                    return Err(e);
                },
            };
            let ghost h2 = self.history();
            assert(added(h0, h2) =~= added(h0, h1).push(h2.last()));
            match check_read_reply(reply.as_slice(), size) {
                Ok(()) => {},
                Err(e) => {
                    return Err(e);
                },
            }
            copy_into(buffer, offset, reply.as_slice(), READ_REPLY_HEADER, size);
            proof {
                let ex = added(h0, h2);
                lemma_read_data_prefix(added(h0, h1), ex, chunks.subrange(0, k), bs as int);
                assert(chunks.subrange(0, k + 1).drop_last() =~= chunks.subrange(0, k));
                assert(b0.subrange(offset as int, b0.len() as int).subrange(size as int, b0.len() - offset)
                    =~= b0.subrange(offset + size, b0.len() as int));
            }
            offset = offset + size;
            cur = cur + n * bs;
            rem = rem - n;
            proof {
                k = k + 1;
                assert(chunks =~= chunks.subrange(0, k) + plan(cur as int, rem as int, bs as int, max as int));
                assert(buffer@ =~= read_data(added(h0, self.history()), chunks.subrange(0, k), bs as int)
                    + b0.subrange(offset as int, b0.len() as int));
            }
        }
        proof {
            assert(chunks.subrange(0, k) =~= chunks);
        }
        Ok(())
    }

    /// Writes `amount` elements of `word_len` from the front of `buffer` to `area` at
    /// `start`, in as many requests as the PDU length asks for.
    #[verifier::spinoff_prover]
    #[verifier::rlimit(40)]
    pub fn write(
        &mut self,
        area: Area,
        db_number: i32,
        start: i32,
        amount: i32,
        word_len: i32,
        buffer: &mut Vec<u8>,
    ) -> (r: Result<(), Error>)
        requires
            spec_normalize(area, amount, word_len) matches Some(j) ==> j.total() <= old(
                buffer,
            )@.len(),
        ensures
            final(self).spec_pdu_length() == old(self).spec_pdu_length(),
            final(buffer)@ == old(buffer)@,
            write_outcome(
                area,
                db_number,
                start,
                amount,
                word_len,
                old(self).spec_pdu_length(),
                old(self).history(),
                final(self).history(),
                old(self).failures(),
                final(self).failures(),
                old(buffer)@,
                r,
            ),
    {
        let job = match normalize(area, amount, word_len) {
            Ok(j) => j,
            Err(e) => return Err(e),
        };
        let pdu = self.pdu_length;
        let bs = job.byte_size;
        let room: i64 = pdu as i64 - WRITE_PDU_OVERHEAD as i64;
        proof {
            lemma_max_elements_positive(room as int, bs as int);
        }
        if room < bs {
            return Err(Error::PduLength(pdu));
        }
        let max: i64 = room / bs;
        let ghost h0 = self.history();
        let ghost f0 = self.failures();
        assert(added(h0, self.history()) =~= Seq::<Exchange>::empty());
        let ghost b0 = buffer@;
        let ghost chunks = plan(start as int, job.amount as int, bs as int, max as int);
        let ghost total = job.total();
        let ghost mut k: int = 0;
        let blen = buffer.len();
        let mut cur: i64 = start as i64;
        let mut rem: i64 = job.amount;
        let mut offset: usize = 0;
        assert(chunks =~= chunks.subrange(0, 0) + plan(cur as int, rem as int, bs as int, max as int));
        while rem > 0
            invariant
                spec_normalize(area, amount, word_len) == Some(job),
                pdu == old(self).spec_pdu_length(),
                h0 == old(self).history(),
                f0 == old(self).failures(),
                self.failures() == f0,
                b0 == old(buffer)@,
                buffer@ == b0,
                b0.len() == blen,
                1 <= bs <= 2,
                bs == job.byte_size,
                total <= 4 * 0x8000_0000,
                rem >= 0 || rem == job.amount,
                max >= 1,
                max == max_elements(self.spec_pdu_length(), WRITE_PDU_OVERHEAD, bs as int),
                self.spec_pdu_length() == pdu,
                -0x8000_0000 <= start < 0x8000_0000,
                job.amount <= 4 * 0x8000_0000,
                total == job.total(),
                total <= b0.len(),
                chunks == plan(start as int, job.amount as int, bs as int, max as int),
                0 <= k <= chunks.len(),
                chunks == chunks.subrange(0, k) + plan(cur as int, rem as int, bs as int, max as int),
                offset == cur - start,
                rem > 0 ==> offset + rem * bs == total,
                rem <= 0 ==> offset == total,
                rem <= job.amount,
                self.history().len() == h0.len() + k,
                extends(h0, self.history()),
                write_exchanges_follow(area, db_number, start as int, job, chunks, b0, added(h0, self.history())),
                write_replies_ok(added(h0, self.history())),
            decreases rem,
        {
            let n: i64 = if rem < max { rem } else { max };
            assert(n * bs <= rem * bs && (rem - n) * bs == rem * bs - n * bs) by (nonlinear_arith)
                requires
                    1 <= n <= rem,
                    1 <= bs <= 2,
            ;
            let size: usize = (n * bs) as usize;
            let ghost h1 = self.history();
            assert(chunks[k] == (cur as int, n as int));
            let data = sub_vec(buffer.as_slice(), offset, size);
            let request = write_request(area, db_number, cur, n, job.word_len, data.as_slice());
            let ghost req = request@;
            let reply = match self.exchange(request) {
                Ok(reply) => reply,
                Err(e) => {
                    assert(added(h0, self.history()) =~= added(h0, h1));
                    assert(added(f0, self.failures()) =~= seq![(req, e)]);
                    return Err(e);
                },
            };
            let ghost h2 = self.history();
            assert(added(h0, h2) =~= added(h0, h1).push(h2.last()));
            match check_write_reply(reply.as_slice()) {
                Ok(()) => {},
                Err(e) => {
                    return Err(e);
                },
            }
            offset = offset + size;
            cur = cur + n * bs;
            rem = rem - n;
            proof {
                k = k + 1;
                assert(chunks =~= chunks.subrange(0, k) + plan(cur as int, rem as int, bs as int, max as int));
            }
        }
        Ok(())
    }

    /// Reads `size` bytes of data block `db_number` from byte `start` into the front of `buffer`.
    pub fn ag_read(&mut self, db_number: i32,
        start: i32, size: i32, buffer: &mut Vec<u8>) -> (r: Result<(), Error>)
        requires
            size <= old(buffer)@.len(),
        ensures
            final(self).spec_pdu_length() == old(self).spec_pdu_length(),
            read_outcome(
                Area::DataBausteine,
                db_number,
                start,
                size,
                WL_BYTE,
                old(self).spec_pdu_length(),
                old(self).history(),
                final(self).history(),
                old(self).failures(),
                final(self).failures(),
                old(buffer)@,
                final(buffer)@,
                r,
            ),
    {
        proof {
            lemma_normalize_bytes(Area::DataBausteine, size);
        }
        self.read(Area::DataBausteine, db_number, start, size, WL_BYTE, buffer)
    }

    /// Writes `size` bytes from the front of `buffer` to data block `db_number` at byte `start`.
    pub fn ag_write(&mut self, db_number: i32,
        start: i32, size: i32, buffer: &mut Vec<u8>) -> (r: Result<(), Error>)
        requires
            size <= old(buffer)@.len(),
        ensures
            final(self).spec_pdu_length() == old(self).spec_pdu_length(),
            final(buffer)@ == old(buffer)@,
            write_outcome(
                Area::DataBausteine,
                db_number,
                start,
                size,
                WL_BYTE,
                old(self).spec_pdu_length(),
                old(self).history(),
                final(self).history(),
                old(self).failures(),
                final(self).failures(),
                old(buffer)@,
                r,
            ),
    {
        proof {
            lemma_normalize_bytes(Area::DataBausteine, size);
        }
        self.write(Area::DataBausteine, db_number, start, size, WL_BYTE, buffer)
    }

    /// Reads `size` bytes of the flag memory (merkers) from byte `start` into the front of `buffer`.
    pub fn mb_read(&mut self, start: i32, size: i32, buffer: &mut Vec<u8>) -> (r: Result<(), Error>)
        requires
            size <= old(buffer)@.len(),
        ensures
            final(self).spec_pdu_length() == old(self).spec_pdu_length(),
            read_outcome(
                Area::Merker,
                0,
                start,
                size,
                WL_BYTE,
                old(self).spec_pdu_length(),
                old(self).history(),
                final(self).history(),
                old(self).failures(),
                final(self).failures(),
                old(buffer)@,
                final(buffer)@,
                r,
            ),
    {
        proof {
            lemma_normalize_bytes(Area::Merker, size);
        }
        self.read(Area::Merker, 0, start, size, WL_BYTE, buffer)
    }

    /// Writes `size` bytes from the front of `buffer` to the flag memory (merkers) at byte `start`.
    pub fn mb_write(&mut self, start: i32, size: i32, buffer: &mut Vec<u8>) -> (r: Result<(), Error>)
        requires
            size <= old(buffer)@.len(),
        ensures
            final(self).spec_pdu_length() == old(self).spec_pdu_length(),
            final(buffer)@ == old(buffer)@,
            write_outcome(
                Area::Merker,
                0,
                start,
                size,
                WL_BYTE,
                old(self).spec_pdu_length(),
                old(self).history(),
                final(self).history(),
                old(self).failures(),
                final(self).failures(),
                old(buffer)@,
                r,
            ),
    {
        proof {
            lemma_normalize_bytes(Area::Merker, size);
        }
        self.write(Area::Merker, 0, start, size, WL_BYTE, buffer)
    }

    /// Reads `size` bytes of the process inputs from byte `start` into the front of `buffer`.
    pub fn eb_read(&mut self, start: i32, size: i32, buffer: &mut Vec<u8>) -> (r: Result<(), Error>)
        requires
            size <= old(buffer)@.len(),
        ensures
            final(self).spec_pdu_length() == old(self).spec_pdu_length(),
            read_outcome(
                Area::ProcessInput,
                0,
                start,
                size,
                WL_BYTE,
                old(self).spec_pdu_length(),
                old(self).history(),
                final(self).history(),
                old(self).failures(),
                final(self).failures(),
                old(buffer)@,
                final(buffer)@,
                r,
            ),
    {
        proof {
            lemma_normalize_bytes(Area::ProcessInput, size);
        }
        self.read(Area::ProcessInput, 0, start, size, WL_BYTE, buffer)
    }

    /// Writes `size` bytes from the front of `buffer` to the process inputs at byte `start`.
    pub fn eb_write(&mut self, start: i32, size: i32, buffer: &mut Vec<u8>) -> (r: Result<(), Error>)
        requires
            size <= old(buffer)@.len(),
        ensures
            final(self).spec_pdu_length() == old(self).spec_pdu_length(),
            final(buffer)@ == old(buffer)@,
            write_outcome(
                Area::ProcessInput,
                0,
                start,
                size,
                WL_BYTE,
                old(self).spec_pdu_length(),
                old(self).history(),
                final(self).history(),
                old(self).failures(),
                final(self).failures(),
                old(buffer)@,
                r,
            ),
    {
        proof {
            lemma_normalize_bytes(Area::ProcessInput, size);
        }
        self.write(Area::ProcessInput, 0, start, size, WL_BYTE, buffer)
    }

    /// Reads `size` bytes of the process outputs from byte `start` into the front of `buffer`.
    pub fn ab_read(&mut self, start: i32, size: i32, buffer: &mut Vec<u8>) -> (r: Result<(), Error>)
        requires
            size <= old(buffer)@.len(),
        ensures
            final(self).spec_pdu_length() == old(self).spec_pdu_length(),
            read_outcome(
                Area::ProcessOutput,
                0,
                start,
                size,
                WL_BYTE,
                old(self).spec_pdu_length(),
                old(self).history(),
                final(self).history(),
                old(self).failures(),
                final(self).failures(),
                old(buffer)@,
                final(buffer)@,
                r,
            ),
    {
        proof {
            lemma_normalize_bytes(Area::ProcessOutput, size);
        }
        self.read(Area::ProcessOutput, 0, start, size, WL_BYTE, buffer)
    }

    /// Writes `size` bytes from the front of `buffer` to the process outputs at byte `start`.
    pub fn ab_write(&mut self, start: i32, size: i32, buffer: &mut Vec<u8>) -> (r: Result<(), Error>)
        requires
            size <= old(buffer)@.len(),
        ensures
            final(self).spec_pdu_length() == old(self).spec_pdu_length(),
            final(buffer)@ == old(buffer)@,
            write_outcome(
                Area::ProcessOutput,
                0,
                start,
                size,
                WL_BYTE,
                old(self).spec_pdu_length(),
                old(self).history(),
                final(self).history(),
                old(self).failures(),
                final(self).failures(),
                old(buffer)@,
                r,
            ),
    {
        proof {
            lemma_normalize_bytes(Area::ProcessOutput, size);
        }
        self.write(Area::ProcessOutput, 0, start, size, WL_BYTE, buffer)
    }

    /// Sends a start or stop request and checks its answer.
    fn cold_warm_start_stop(
        &mut self,
        request: Vec<u8>,
        expected: u8,
        refused: i32,
        already_marker: u8,
        already: i32,
    ) -> (r: Result<(), Error>)
        ensures
            final(self).spec_pdu_length() == old(self).spec_pdu_length(),
            single_outcome(
                request@,
                old(self).history(),
                final(self).history(),
                old(self).failures(),
                final(self).failures(),
                r,
                |reply: Seq<u8>| outcome(control_reply_error(reply, expected, refused, already_marker, already)),
            ),
    {
        let ghost h0 = self.history();
        let ghost f0 = self.failures();
        let ghost req = request@;
        let reply = match self.exchange(request) {
            Ok(reply) => reply,
            Err(e) => {
                assert(added(h0, self.history()) =~= Seq::<Exchange>::empty());
                assert(added(f0, self.failures()) =~= seq![(req, e)]);
                return Err(e);
            },
        };
        assert(added(h0, self.history()) =~= seq![(req, reply@)]);
        check_control_reply(reply.as_slice(), expected, refused, already_marker, already)
    }

    /// Cold start: the CPU discards its current state and runs the program from its
    /// initial values.
    pub fn start(&mut self) -> (r: Result<(), Error>)
        ensures
            final(self).spec_pdu_length() == old(self).spec_pdu_length(),
            single_outcome(
                spec_cold_start_telegram(),
                old(self).history(),
                final(self).history(),
                old(self).failures(),
                final(self).failures(),
                r,
                |reply: Seq<u8>| outcome(control_reply_error(reply, PDU_START, CLI_CANNOT_START_PLC, PDU_ALREADY_STARTED, CLI_ALREADY_RUN)),
            ),
    {
        self.cold_warm_start_stop(
            cold_start_telegram(),
            PDU_START,
            CLI_CANNOT_START_PLC,
            PDU_ALREADY_STARTED,
            CLI_ALREADY_RUN,
        )
    }

    /// Warm restart: the CPU runs its program again and keeps its retentive data.
    pub fn restart(&mut self) -> (r: Result<(), Error>)
        ensures
            final(self).spec_pdu_length() == old(self).spec_pdu_length(),
            single_outcome(
                spec_warm_start_telegram(),
                old(self).history(),
                final(self).history(),
                old(self).failures(),
                final(self).failures(),
                r,
                |reply: Seq<u8>| outcome(control_reply_error(reply, PDU_START, CLI_CANNOT_START_PLC, PDU_ALREADY_STARTED, CLI_ALREADY_RUN)),
            ),
    {
        self.cold_warm_start_stop(
            warm_start_telegram(),
            PDU_START,
            CLI_CANNOT_START_PLC,
            PDU_ALREADY_STARTED,
            CLI_ALREADY_RUN,
        )
    }

    /// Stops the CPU.
    pub fn stop(&mut self) -> (r: Result<(), Error>)
        ensures
            final(self).spec_pdu_length() == old(self).spec_pdu_length(),
            single_outcome(
                spec_stop_telegram(),
                old(self).history(),
                final(self).history(),
                old(self).failures(),
                final(self).failures(),
                r,
                |reply: Seq<u8>| outcome(control_reply_error(reply, PDU_STOP, CLI_CANNOT_STOP_PLC, PDU_ALREADY_STOPPED, CLI_ALREADY_STOP)),
            ),
    {
        self.cold_warm_start_stop(
            stop_telegram(),
            PDU_STOP,
            CLI_CANNOT_STOP_PLC,
            PDU_ALREADY_STOPPED,
            CLI_ALREADY_STOP,
        )
    }

    /// Asks the CPU for its run state.
    pub fn plc_status(&mut self) -> (r: Result<CpuStatus, Error>)
        ensures
            final(self).spec_pdu_length() == old(self).spec_pdu_length(),
            single_outcome(
                spec_plc_status_telegram(),
                old(self).history(),
                final(self).history(),
                old(self).failures(),
                final(self).failures(),
                r,
                |reply: Seq<u8>| spec_plc_status(reply),
            ),
    {
        let ghost h0 = self.history();
        let ghost f0 = self.failures();
        let request = plc_status_telegram();
        let ghost req = request@;
        let reply = match self.exchange(request) {
            Ok(reply) => reply,
            Err(e) => {
                assert(added(h0, self.history()) =~= Seq::<Exchange>::empty());
                assert(added(f0, self.failures()) =~= seq![(req, e)]);
                return Err(e);
            },
        };
        assert(added(h0, self.history()) =~= seq![(req, reply@)]);
        parse_plc_status(reply.as_slice())
    }

    /// Reads the system status list `id` at `index`, over as many answers as the
    /// controller splits it into.
    pub fn read_szl(&mut self, id: u16, index: u16) -> (r: Result<S7SZL, Error>)
        ensures
            final(self).spec_pdu_length() == old(self).spec_pdu_length(),
            szl_outcome(id, index, old(self).history(), final(self).history(), old(self).failures(), final(self).failures(), r),
    {
        let ghost h0 = self.history();
        let ghost f0 = self.failures();
        let first = szl_first_request(id, index);
        let ghost req0 = first@;
        let reply = match self.exchange(first) {
            Ok(reply) => reply,
            Err(e) => {
                assert(added(h0, self.history()) =~= Seq::<Exchange>::empty());
                assert(added(f0, self.failures()) =~= seq![(req0, e)]);
                return Err(e);
            },
        };
        assert(added(h0, self.history()) =~= seq![(req0, reply@)]);
        let fragment = match parse_szl_fragment(reply.as_slice()) {
            Ok(f) => f,
            Err(e) => return Err(e),
        };
        let header = szl_header(reply.as_slice());
        let ghost first_reply = reply@;
        let mut data = fragment.data;
        let mut done = fragment.done;
        let mut seq_in = fragment.seq_in;
        let mut count: usize = 1;
        proof {
            let ex = added(h0, self.history());
            assert(ex.drop_last() =~= Seq::<Exchange>::empty());
            assert(szl_data(ex.drop_last()) =~= Seq::<u8>::empty());
            assert(szl_data(ex) =~= szl_reply_data(first_reply));
        }
        while !done
            invariant
                h0 == old(self).history(),
                f0 == old(self).failures(),
                self.failures() == f0,
                self.spec_pdu_length() == old(self).spec_pdu_length(),
                extends(h0, self.history()),
                1 <= count <= SZL_MAX_FRAGMENTS,
                added(h0, self.history()).len() == count,
                added(h0, self.history())[0].1 == first_reply,
                header == spec_szl_header(first_reply),
                szl_exchanges_follow(id, index, added(h0, self.history())),
                szl_reply_error(added(h0, self.history()).last().1) == None::<Error>,
                done == szl_reply_done(added(h0, self.history()).last().1),
                seq_in == added(h0, self.history()).last().1[24],
                data@ == szl_data(added(h0, self.history())),
            decreases SZL_MAX_FRAGMENTS - count,
        {
            if count >= SZL_MAX_FRAGMENTS {
                return Err(Error::CPU { code: CLI_INVALID_PLC_ANSWER });
            }
            let ghost h1 = self.history();
            let next = szl_next_request(seq_in);
            let ghost req = next@;
            let reply = match self.exchange(next) {
                Ok(reply) => reply,
                Err(e) => {
                    assert(added(h0, self.history()) =~= added(h0, h1));
                    assert(added(f0, self.failures()) =~= seq![(req, e)]);
                    return Err(e);
                },
            };
            assert(added(h0, self.history()) =~= added(h0, h1).push((req, reply@)));
            assert(added(h0, self.history()).drop_last() =~= added(h0, h1));
            let mut fragment = match parse_szl_fragment(reply.as_slice()) {
                Ok(f) => f,
                Err(e) => return Err(e),
            };
            data.append(&mut fragment.data);
            done = fragment.done;
            seq_in = fragment.seq_in;
            count = count + 1;
        }
        Ok(S7SZL { header, data })
    }

    /// Reads the identification of the CPU module.
    pub fn cpu_info(&mut self) -> (r: Result<CpuInfo, Error>)
        ensures
            final(self).spec_pdu_length() == old(self).spec_pdu_length(),
            szl_job_outcome(
                CPU_INFO_SZL_ID,
                0,
                old(self).history(),
                final(self).history(),
                old(self).failures(),
                final(self).failures(),
                r,
                |data: Seq<u8>, r: Result<CpuInfo, Error>| cpu_info_result(data, r),
            ),
    {
        let szl = match self.read_szl(CPU_INFO_SZL_ID, 0) {
            Ok(s) => s,
            Err(e) => return Err(e),
        };
        cpu_info_from_szl(szl.data.as_slice())
    }

    /// Reads the communication parameters of the CPU.
    pub fn cp_info(&mut self) -> (r: Result<CPInfo, Error>)
        ensures
            final(self).spec_pdu_length() == old(self).spec_pdu_length(),
            szl_job_outcome(
                CP_INFO_SZL_ID,
                0,
                old(self).history(),
                final(self).history(),
                old(self).failures(),
                final(self).failures(),
                r,
                |data: Seq<u8>, r: Result<CPInfo, Error>| r == spec_cp_info(data),
            ),
    {
        let szl = match self.read_szl(CP_INFO_SZL_ID, 0) {
            Ok(s) => s,
            Err(e) => return Err(e),
        };
        cp_info_from_szl(szl.data.as_slice())
    }
}

} // verus!
