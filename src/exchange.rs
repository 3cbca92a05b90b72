//! What the client's jobs do: the exchanges each one makes with the controller, in
//! terms of the requests it must send and the answers it got.
use vstd::prelude::*;
use crate::constant::{Area, WL_BYTE};
use crate::error::{Error, CLI_INVALID_PLC_ANSWER, ISO_INVALID_DATA_SIZE};
use crate::pdu::{
    plan, read_data, read_reply_error, spec_normalize,
    spec_read_request, spec_szl_first_request, spec_szl_header, spec_szl_next_request,
    spec_write_request, szl_reply_data, szl_reply_done, szl_reply_error, write_reply_error, Job,
    READ_PDU_OVERHEAD, WRITE_PDU_OVERHEAD,
};
use crate::transport::S7SZL;

verus! {

/// One request sent to the controller and the answer it got.
pub type Exchange = (Seq<u8>, Seq<u8>);

/// One request whose sending failed, and the error the transport gave.
pub type Failure = (Seq<u8>, Error);

/// The entries of `after` that came after those of `before`.
pub open spec fn added<A>(before: Seq<A>, after: Seq<A>) -> Seq<A> {
    after.subrange(before.len() as int, after.len() as int)
}

/// Whether `after` holds the entries of `before` and then more.
pub open spec fn extends<A>(before: Seq<A>, after: Seq<A>) -> bool {
    &&& before.len() <= after.len()
    &&& forall|i: int| 0 <= i < before.len() ==> after[i] == before[i]
}

/// Largest number of elements of `byte_size` bytes in one request, after `overhead` bytes.
pub open spec fn max_elements(pdu_length: i32, overhead: i32, byte_size: int) -> int {
    (pdu_length - overhead) / byte_size
}

/// Whether the exchanges `ex` are the first requests of the read `chunks`, each
/// answered well but maybe the last.
pub open spec fn read_exchanges_follow(
    area: Area,
    db_number: i32,
    job: Job,
    chunks: Seq<(int, int)>,
    ex: Seq<Exchange>,
) -> bool {
    &&& ex.len() <= chunks.len()
    &&& forall|i: int|
        0 <= i < ex.len() ==> #[trigger] ex[i].0 == spec_read_request(
            area,
            db_number,
            chunks[i].0,
            chunks[i].1,
            job.word_len,
        )
    &&& forall|i: int|
        0 <= i < ex.len() - 1 ==> read_reply_error(#[trigger] ex[i].1, chunks[i].1 * job.byte_size)
            == None::<Error>
}

/// Whether every answer in `ex` is a good answer to its read request.
pub open spec fn read_replies_ok(job: Job, chunks: Seq<(int, int)>, ex: Seq<Exchange>) -> bool {
    forall|i: int|
        0 <= i < ex.len() ==> read_reply_error(#[trigger] ex[i].1, chunks[i].1 * job.byte_size)
            == None::<Error>
}

/// The data of the write request for chunk `c` of a write that starts at `start`.
pub open spec fn chunk_data(buffer: Seq<u8>, start: int, c: (int, int), byte_size: int) -> Seq<u8> {
    buffer.subrange(c.0 - start, c.0 - start + c.1 * byte_size)
}

/// Whether the exchanges `ex` are the first requests of the write `chunks`, each
/// answered well but maybe the last.
pub open spec fn write_exchanges_follow(
    area: Area,
    db_number: i32,
    start: int,
    job: Job,
    chunks: Seq<(int, int)>,
    buffer: Seq<u8>,
    ex: Seq<Exchange>,
) -> bool {
    &&& ex.len() <= chunks.len()
    &&& forall|i: int|
        0 <= i < ex.len() ==> #[trigger] ex[i].0 == spec_write_request(
            area,
            db_number,
            chunks[i].0,
            chunks[i].1,
            job.word_len,
            chunk_data(buffer, start, chunks[i], job.byte_size as int),
        )
    &&& forall|i: int| 0 <= i < ex.len() - 1 ==> write_reply_error(#[trigger] ex[i].1) == None::<Error>
}

/// Whether every answer in `ex` is a good answer to a write request.
pub open spec fn write_replies_ok(ex: Seq<Exchange>) -> bool {
    forall|i: int| 0 <= i < ex.len() ==> write_reply_error(#[trigger] ex[i].1) == None::<Error>
}

/// What a read of `amount` elements of `word_len` from `area` at `start` did, given the
/// PDU length, the exchanges and the buffer before and after it, and its result.
pub open spec fn read_outcome(
    area: Area,
    db_number: i32,
    start: i32,
    amount: i32,
    word_len: i32,
    pdu_length: i32,
    before: Seq<Exchange>,
    after: Seq<Exchange>,
    failed_before: Seq<Failure>,
    failed_after: Seq<Failure>,
    buf_before: Seq<u8>,
    buf_after: Seq<u8>,
    r: Result<(), Error>,
) -> bool {
    &&& extends(before, after)
    &&& extends(failed_before, failed_after)
    &&& buf_after.len() == buf_before.len()
    &&& match spec_normalize(area, amount, word_len) {
            None => {
                &&& r == Err::<(), Error>(Error::Response { code: ISO_INVALID_DATA_SIZE })
                &&& after == before
                &&& failed_after == failed_before
                &&& buf_after == buf_before
            },
            Some(job) => {
                let max = max_elements(pdu_length, READ_PDU_OVERHEAD, job.byte_size as int);
                let chunks = plan(start as int, job.amount as int, job.byte_size as int, max);
                let ex = added(before, after);
                let fx = added(failed_before, failed_after);
                if max < 1 {
                    &&& r == Err::<(), Error>(Error::PduLength(pdu_length))
                    &&& after == before
                    &&& failed_after == failed_before
                    &&& buf_after == buf_before
                } else {
                    &&& read_exchanges_follow(area, db_number, job, chunks, ex)
                    &&& (ex.len() == chunks.len() && read_replies_ok(job, chunks, ex)) <==> r is Ok
                    &&& r is Ok ==> buf_after == read_data(ex, chunks, job.byte_size as int)
                        + buf_before.subrange(job.total(), buf_before.len() as int)
                        && fx.len() == 0
                    &&& r matches Err(e) ==> (ex.len() > 0 && read_reply_error(
                        ex.last().1,
                        chunks[ex.len() - 1].1 * job.byte_size,
                    ) == Some(e) && fx.len() == 0) || (ex.len() < chunks.len() && read_replies_ok(
                        job,
                        chunks,
                        ex,
                    ) && fx == seq![
                        (
                            spec_read_request(
                                area,
                                db_number,
                                chunks[ex.len() as int].0,
                                chunks[ex.len() as int].1,
                                job.word_len,
                            ),
                            e,
                        ),
                    ])
                }
            },
        }
}

/// What a write of `amount` elements of `word_len` to `area` at `start` did, given the
/// PDU length, the exchanges before and after it, the buffer, and its result.
pub open spec fn write_outcome(
    area: Area,
    db_number: i32,
    start: i32,
    amount: i32,
    word_len: i32,
    pdu_length: i32,
    before: Seq<Exchange>,
    after: Seq<Exchange>,
    failed_before: Seq<Failure>,
    failed_after: Seq<Failure>,
    buf_before: Seq<u8>,
    r: Result<(), Error>,
) -> bool {
    &&& extends(before, after)
    &&& extends(failed_before, failed_after)
    &&& match spec_normalize(area, amount, word_len) {
            None => {
                &&& r == Err::<(), Error>(Error::Response { code: ISO_INVALID_DATA_SIZE })
                &&& after == before
                &&& failed_after == failed_before
            },
            Some(job) => {
                let max = max_elements(pdu_length, WRITE_PDU_OVERHEAD, job.byte_size as int);
                let chunks = plan(start as int, job.amount as int, job.byte_size as int, max);
                let ex = added(before, after);
                let fx = added(failed_before, failed_after);
                if max < 1 {
                    &&& r == Err::<(), Error>(Error::PduLength(pdu_length))
                    &&& after == before
                    &&& failed_after == failed_before
                } else {
                    &&& write_exchanges_follow(area, db_number, start as int, job, chunks, buf_before, ex)
                    &&& (ex.len() == chunks.len() && write_replies_ok(ex)) <==> r is Ok
                    &&& r is Ok ==> fx.len() == 0
                    &&& r matches Err(e) ==> (ex.len() > 0 && write_reply_error(ex.last().1) == Some(e)
                        && fx.len() == 0) || (ex.len() < chunks.len() && write_replies_ok(ex) && fx
                        == seq![
                        (
                            spec_write_request(
                                area,
                                db_number,
                                chunks[ex.len() as int].0,
                                chunks[ex.len() as int].1,
                                job.word_len,
                                chunk_data(buf_before, start as int, chunks[ex.len() as int], job.byte_size as int),
                            ),
                            e,
                        ),
                    ])
                }
            },
        }
}

/// What a job of a single exchange did: it sent `request` once; if an answer came
/// back, the result is what `answer` makes of it, and if sending failed, the result is
/// the transport's error.
pub open spec fn single_outcome<R>(
    request: Seq<u8>,
    before: Seq<Exchange>,
    after: Seq<Exchange>,
    failed_before: Seq<Failure>,
    failed_after: Seq<Failure>,
    r: Result<R, Error>,
    answer: spec_fn(Seq<u8>) -> Result<R, Error>,
) -> bool {
    let ex = added(before, after);
    let fx = added(failed_before, failed_after);
    &&& extends(before, after)
    &&& extends(failed_before, failed_after)
    &&& ex.len() + fx.len() == 1
    &&& ex.len() == 1 ==> ex[0].0 == request && r == answer(ex[0].1)
    &&& fx.len() == 1 ==> fx[0].0 == request && r == Err::<R, Error>(fx[0].1)
}

/// Most answers that one system status list read accepts.
pub const SZL_MAX_FRAGMENTS: usize = 256;

/// System status list of the CPU module identification.
pub const CPU_INFO_SZL_ID: u16 = 0x001C;

/// System status list of the communication parameters.
pub const CP_INFO_SZL_ID: u16 = 0x0131;

/// The data records that the answers in `ex` carry, in order.
pub open spec fn szl_data(ex: Seq<Exchange>) -> Seq<u8>
    decreases ex.len(),
{
    if ex.len() == 0 {
        seq![]
    } else {
        szl_data(ex.drop_last()) + szl_reply_data(ex.last().1)
    }
}

/// Whether `ex` are the first exchanges of a read of system status list `id` at `index`:
/// the first request, then one follow-up for each good answer that was not the last.
pub open spec fn szl_exchanges_follow(id: u16, index: u16, ex: Seq<Exchange>) -> bool {
    &&& ex.len() <= SZL_MAX_FRAGMENTS
    &&& ex.len() > 0 ==> ex[0].0 == spec_szl_first_request(id, index)
    &&& forall|i: int|
        1 <= i < ex.len() ==> #[trigger] ex[i].0 == spec_szl_next_request(ex[i - 1].1[24])
    &&& forall|i: int|
        0 <= i < ex.len() - 1 ==> szl_reply_error(#[trigger] ex[i].1) == None::<Error>
            && !szl_reply_done(ex[i].1)
}

/// The request that follows the exchanges `ex` of a read of system status list `id`
/// at `index`.
pub open spec fn szl_next(id: u16, index: u16, ex: Seq<Exchange>) -> Seq<u8> {
    if ex.len() == 0 {
        spec_szl_first_request(id, index)
    } else {
        spec_szl_next_request(ex.last().1[24])
    }
}

/// Whether a read of system status list `id` at `index` whose answers `ex` were all good
/// and none the last stopped with `e`: because sending the next request failed with it,
/// or because the list had already come in as many answers as a read accepts.
pub open spec fn szl_stopped(id: u16, index: u16, ex: Seq<Exchange>, fx: Seq<Failure>, e: Error) -> bool {
    &&& forall|i: int|
        0 <= i < ex.len() ==> szl_reply_error(#[trigger] ex[i].1) == None::<Error>
            && !szl_reply_done(ex[i].1)
    &&& fx == seq![(szl_next(id, index, ex), e)] || (ex.len() == SZL_MAX_FRAGMENTS && fx.len()
        == 0 && e == Error::CPU { code: CLI_INVALID_PLC_ANSWER })
}

/// Whether the exchanges `ex` make a whole system status list.
pub open spec fn szl_complete(ex: Seq<Exchange>) -> bool {
    ex.len() > 0 && szl_reply_error(ex.last().1) == None::<Error> && szl_reply_done(ex.last().1)
}

/// What a read of system status list `id` at `index` did.
pub open spec fn szl_outcome(
    id: u16,
    index: u16,
    before: Seq<Exchange>,
    after: Seq<Exchange>,
    failed_before: Seq<Failure>,
    failed_after: Seq<Failure>,
    r: Result<S7SZL, Error>,
) -> bool {
    let ex = added(before, after);
    let fx = added(failed_before, failed_after);
    &&& extends(before, after)
    &&& extends(failed_before, failed_after)
    &&& szl_exchanges_follow(id, index, ex)
    &&& szl_complete(ex) <==> r is Ok
    &&& r matches Ok(s) ==> s.data@ == szl_data(ex) && s.header == spec_szl_header(ex[0].1)
        && fx.len() == 0
    &&& r matches Err(e) ==> (ex.len() > 0 && szl_reply_error(ex.last().1) == Some(e) && fx.len()
        == 0) || szl_stopped(id, index, ex, fx, e)
}

/// What a job that reads system status list `id` at `index` and then decodes its data
/// did: `decoded` says which results fit the data of the whole list.
pub open spec fn szl_job_outcome<R>(
    id: u16,
    index: u16,
    before: Seq<Exchange>,
    after: Seq<Exchange>,
    failed_before: Seq<Failure>,
    failed_after: Seq<Failure>,
    r: Result<R, Error>,
    decoded: spec_fn(Seq<u8>, Result<R, Error>) -> bool,
) -> bool {
    let ex = added(before, after);
    let fx = added(failed_before, failed_after);
    &&& extends(before, after)
    &&& extends(failed_before, failed_after)
    &&& szl_exchanges_follow(id, index, ex)
    &&& szl_complete(ex) ==> decoded(szl_data(ex), r) && fx.len() == 0
    &&& !szl_complete(ex) ==> (r matches Err(e) && ((ex.len() > 0 && szl_reply_error(ex.last().1)
        == Some(e) && fx.len() == 0) || szl_stopped(id, index, ex, fx, e)))
}

/// The data delivered to a read does not depend on exchanges after its own.
pub(crate) proof fn lemma_read_data_prefix(a: Seq<Exchange>, b: Seq<Exchange>, chunks: Seq<(int, int)>, byte_size: int)
    requires
        chunks.len() <= a.len(),
        extends(a, b),
    ensures
        read_data(a, chunks, byte_size) == read_data(b, chunks, byte_size),
    decreases chunks.len(),
{
    if chunks.len() > 0 {
        lemma_read_data_prefix(a, b, chunks.drop_last(), byte_size);
    }
}

/// There is room for an element exactly when the room is at least one element's size.
pub(crate) proof fn lemma_max_elements_positive(room: int, byte_size: int)
    requires
        byte_size >= 1,
    ensures
        room / byte_size >= 1 <==> room >= byte_size,
{
    if room >= byte_size {
        vstd::arithmetic::div_mod::lemma_div_is_ordered(byte_size, room, byte_size);
        vstd::arithmetic::div_mod::lemma_div_by_self(byte_size);
    } else if room >= 0 {
        vstd::arithmetic::div_mod::lemma_basic_div(room, byte_size);
    } else {
        vstd::arithmetic::div_mod::lemma_div_is_ordered(room, byte_size - 1, byte_size);
        vstd::arithmetic::div_mod::lemma_basic_div(byte_size - 1, byte_size);
    }
}

} // verus!
