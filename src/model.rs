//! A model of a controller's memory, and what a write followed by a read of it gives.
use vstd::prelude::*;
use crate::constant::{Area, WL_BYTE};
use crate::error::Error;
use crate::exchange::{
    added, chunk_data, max_elements, read_outcome, write_outcome, Exchange, Failure,
};
use crate::pdu::{
    lemma_normalize_bytes, lemma_plan_len, lemma_read_request_fields, lemma_write_request_fields, plan,
    read_data, read_reply_error, request_address, request_count, request_data,
    spec_read_request, spec_write_request, write_reply_error, ADDRESS_SPACE, READ_PDU_OVERHEAD, READ_REPLY_HEADER, WRITE_PDU_OVERHEAD,
};

verus! {

/// Largest PDU length that a controller grants.
pub const MAX_PDU_LENGTH: i32 = 960;

/// The memory `image` after a controller stored, for each write request of `ex` in
/// order, its data at the byte address that the request names.
pub open spec fn store_writes(image: Seq<u8>, ex: Seq<Exchange>) -> Seq<u8>
    decreases ex.len(),
{
    if ex.len() == 0 {
        image
    } else {
        let prev = store_writes(image, ex.drop_last());
        let req = ex.last().0;
        let a = request_address(req) / 8;
        let d = request_data(req);
        prev.subrange(0, a) + d + prev.subrange(a + d.len(), prev.len() as int)
    }
}

/// Whether each answer in `ex` is a success of a controller that read the bytes of
/// `memory` that its request names: marked as a success, and carrying those bytes.
pub open spec fn answers_reads(ex: Seq<Exchange>, memory: Seq<u8>) -> bool {
    forall|i: int|
        0 <= i < ex.len() ==> (#[trigger] ex[i].1).len() >= READ_REPLY_HEADER + request_count(ex[i].0)
            && ex[i].1[21] == 0xFF && ex[i].1.subrange(
            READ_REPLY_HEADER as int,
            READ_REPLY_HEADER as int + request_count(ex[i].0),
        ) == memory.subrange(
            request_address(ex[i].0) / 8,
            request_address(ex[i].0) / 8 + request_count(ex[i].0),
        )
}

/// Whether each answer in `ex` is the acknowledgement of a write that succeeded.
pub open spec fn acks_writes(ex: Seq<Exchange>) -> bool {
    forall|i: int| 0 <= i < ex.len() ==> write_reply_error(#[trigger] ex[i].1) == None::<Error>
}

/// Whether each answer in `ex` carries, for its read request of `chunks`, the bytes of
/// `memory` at the request's address.
pub open spec fn answers_chunks(ex: Seq<Exchange>, chunks: Seq<(int, int)>, memory: Seq<u8>) -> bool {
    forall|i: int|
        0 <= i < chunks.len() ==> (#[trigger] ex[i].1).subrange(
            READ_REPLY_HEADER as int,
            READ_REPLY_HEADER as int + chunks[i].1,
        ) == memory.subrange(chunks[i].0, chunks[i].0 + chunks[i].1)
}

/// Whether `chunks` cover `from..to` one after the other.
pub open spec fn contiguous(chunks: Seq<(int, int)>, from: int, to: int) -> bool {
    &&& chunks.len() == 0 ==> from == to
    &&& chunks.len() > 0 ==> chunks[0].0 == from && chunks.last().0 + chunks.last().1 == to
    &&& forall|i: int| 0 <= i < chunks.len() ==> #[trigger] chunks[i].1 >= 1
    &&& forall|i: int| 1 <= i < chunks.len() ==> #[trigger] chunks[i].0 == chunks[i - 1].0 + chunks[i - 1].1
}

/// All chunks of a span but the last cover the span up to the last one.
proof fn lemma_contiguous_front(chunks: Seq<(int, int)>, from: int, to: int)
    requires
        contiguous(chunks, from, to),
        chunks.len() > 0,
    ensures
        contiguous(chunks.drop_last(), from, chunks.last().0),
        chunks.last().1 >= 1,
{
    let i = chunks.len() - 1;
    let front = chunks.drop_last();
    assert forall|j: int| 1 <= j < front.len() implies #[trigger] front[j].0 == front[j - 1].0
        + front[j - 1].1 by {
        assert(chunks[j].0 == chunks[j - 1].0 + chunks[j - 1].1);
    }
    assert forall|j: int| 0 <= j < front.len() implies #[trigger] front[j].1 >= 1 by {
        assert(chunks[j].1 >= 1);
    }
    if i > 0 {
        assert(chunks[i].0 == chunks[i - 1].0 + chunks[i - 1].1);
    }
    assert(chunks[i].1 >= 1);
}

/// The chunks of a span lie inside it.
proof fn lemma_chunks_within(chunks: Seq<(int, int)>, from: int, to: int)
    requires
        contiguous(chunks, from, to),
    ensures
        from <= to,
        forall|i: int|
            0 <= i < chunks.len() ==> from <= #[trigger] chunks[i].0 && chunks[i].0 + chunks[i].1 <= to,
    decreases chunks.len(),
{
    if chunks.len() > 0 {
        let i = chunks.len() - 1;
        let front = chunks.drop_last();
        lemma_contiguous_front(chunks, from, to);
        lemma_chunks_within(front, from, chunks[i].0);
        assert forall|j: int| 0 <= j < chunks.len() implies from <= #[trigger] chunks[j].0
            && chunks[j].0 + chunks[j].1 <= to by {
            if j < i {
                assert(front[j] == chunks[j]);
            }
        }
    }
}

/// The requests of a byte transfer cover its span one after the other, each with at
/// most `max` bytes.
proof fn lemma_plan_contiguous(s: int, m: int, max: int)
    requires
        m >= 0,
        max >= 1,
    ensures
        contiguous(plan(s, m, 1, max), s, s + m),
        forall|i: int| 0 <= i < plan(s, m, 1, max).len() ==> #[trigger] plan(s, m, 1, max)[i].1 <= max,
    decreases m,
{
    if m > 0 {
        let k = if m < max {
            m
        } else {
            max
        };
        lemma_plan_contiguous(s + k, m - k, max);
        let rest = plan(s + k, m - k, 1, max);
        let all = plan(s, m, 1, max);
        assert(all == seq![(s, k)] + rest);
        assert forall|i: int| 1 <= i < all.len() implies #[trigger] all[i].0 == all[i - 1].0
            + all[i - 1].1 by {
            assert(all[i] == rest[i - 1]);
            if i > 1 {
                assert(all[i - 1] == rest[i - 2]);
            }
        }
        assert forall|i: int| 0 <= i < all.len() implies #[trigger] all[i].1 >= 1 && all[i].1 <= max by {
            if i > 0 {
                assert(all[i] == rest[i - 1]);
            }
        }
    }
}

/// Reads answered from `memory` deliver the bytes of `memory` over the span that their
/// requests cover.
proof fn lemma_read_contiguous(ex: Seq<Exchange>, chunks: Seq<(int, int)>, from: int, to: int, memory: Seq<u8>)
    requires
        contiguous(chunks, from, to),
        chunks.len() <= ex.len(),
        answers_chunks(ex, chunks, memory),
        0 <= from,
        to <= memory.len(),
    ensures
        read_data(ex, chunks, 1) == memory.subrange(from, to),
    decreases chunks.len(),
{
    if chunks.len() == 0 {
        assert(memory.subrange(from, to) =~= Seq::<u8>::empty());
    } else {
        let i = chunks.len() - 1;
        let front = chunks.drop_last();
        let mid = chunks[i].0;
        lemma_contiguous_front(chunks, from, to);
        lemma_chunks_within(chunks, from, to);
        assert forall|j: int| 0 <= j < front.len() implies (#[trigger] ex[j].1).subrange(
            READ_REPLY_HEADER as int,
            READ_REPLY_HEADER as int + front[j].1,
        ) == memory.subrange(front[j].0, front[j].0 + front[j].1) by {
            assert(front[j] == chunks[j]);
        }
        lemma_read_contiguous(ex, front, from, mid, memory);
        assert(ex[i].1.subrange(READ_REPLY_HEADER as int, READ_REPLY_HEADER as int + chunks[i].1)
            == memory.subrange(mid, to));
        assert(memory.subrange(from, mid) + memory.subrange(mid, to) =~= memory.subrange(from, to));
    }
}

/// A controller that stores the requests of a write, each naming its chunk of a span
/// and carrying the bytes of `buffer` for it, ends with `buffer` in the span and its
/// memory unchanged elsewhere.
proof fn lemma_store_writes(
    image: Seq<u8>,
    ex: Seq<Exchange>,
    chunks: Seq<(int, int)>,
    start: int,
    to: int,
    buffer: Seq<u8>,
)
    requires
        contiguous(chunks, start, to),
        ex.len() == chunks.len(),
        0 <= start,
        to <= image.len(),
        to - start <= buffer.len(),
        forall|i: int|
            0 <= i < ex.len() ==> request_address(#[trigger] ex[i].0) / 8 == chunks[i].0
                && request_data(ex[i].0) == buffer.subrange(chunks[i].0 - start, chunks[i].0 - start + chunks[i].1),
    ensures
        store_writes(image, ex) == image.subrange(0, start) + buffer.subrange(0, to - start)
            + image.subrange(to, image.len() as int),
    decreases ex.len(),
{
    lemma_chunks_within(chunks, start, to);
    if ex.len() == 0 {
        assert(image =~= image.subrange(0, start) + buffer.subrange(0, to - start)
            + image.subrange(to, image.len() as int));
    } else {
        let i = chunks.len() - 1;
        let front = chunks.drop_last();
        let mid = chunks[i].0;
        lemma_contiguous_front(chunks, start, to);
        let exf = ex.drop_last();
        assert forall|j: int| 0 <= j < exf.len() implies request_address(#[trigger] exf[j].0) / 8 == front[j].0
            && request_data(exf[j].0) == buffer.subrange(front[j].0 - start, front[j].0 - start + front[j].1) by {
            assert(exf[j] == ex[j]);
            assert(front[j] == chunks[j]);
        }
        lemma_store_writes(image, exf, front, start, mid, buffer);
        let prev = store_writes(image, exf);
        let d = request_data(ex.last().0);
        assert(d == buffer.subrange(mid - start, to - start));
        assert(prev.subrange(0, mid) + d + prev.subrange(mid + d.len(), prev.len() as int)
            =~= image.subrange(0, start) + buffer.subrange(0, to - start) + image.subrange(to, image.len() as int));
    }
}

/// A byte read of `n` bytes over a PDU length `pdu_length` in which no send fails and
/// every answer is long enough for a full request and marked as a success, succeeds in
/// `n / (pdu_length - 18)` requests, rounded up.
#[verifier::spinoff_prover]
#[verifier::rlimit(30)]
pub proof fn law_read_request_count(
    area: Area,
    db_number: i32,
    start: i32,
    n: i32,
    pdu_length: i32,
    before: Seq<Exchange>,
    after: Seq<Exchange>,
    failed: Seq<Failure>,
    buf_before: Seq<u8>,
    buf_after: Seq<u8>,
    r: Result<(), Error>,
)
    requires
        area != Area::Counter,
        area != Area::Timer,
        n >= 1,
        pdu_length > READ_PDU_OVERHEAD,
        read_outcome(area, db_number, start, n, WL_BYTE, pdu_length, before, after, failed, failed, buf_before, buf_after, r),
        forall|i: int|
            0 <= i < added(before, after).len() ==> (#[trigger] added(before, after)[i].1).len()
                >= READ_REPLY_HEADER + pdu_length - READ_PDU_OVERHEAD && added(before, after)[i].1[21] == 0xFF,
    ensures
        r is Ok,
        added(before, after).len() == (n + pdu_length - READ_PDU_OVERHEAD - 1) / (pdu_length - READ_PDU_OVERHEAD),
{
    lemma_normalize_bytes(area, n);
    let max = (pdu_length - READ_PDU_OVERHEAD) as int;
    vstd::arithmetic::div_mod::lemma_div_basics(max);
    assert(max_elements(pdu_length, READ_PDU_OVERHEAD, 1) == max);
    let chunks = plan(start as int, n as int, 1, max);
    let ex = added(before, after);
    assert(added(failed, failed).len() == 0);
    lemma_plan_contiguous(start as int, n as int, max);
    lemma_plan_len(start as int, n as int, 1, max);
    assert forall|i: int| 0 <= i < ex.len() implies read_reply_error(#[trigger] ex[i].1, chunks[i].1 * 1)
        == None::<Error> by {
        assert(chunks[i].1 <= max);
        assert(chunks[i].1 * 1 == chunks[i].1);
    }
    if ex.len() > 0 {
        assert(read_reply_error(ex[ex.len() - 1].1, chunks[ex.len() - 1].1 * 1) == None::<Error>);
    }
}

/// Reading back what a write stored gives the bytes written. Take a byte write of `n`
/// bytes at `start` and then a byte read of the same span, with no send failing,
/// against a controller that stores the data of each write request at the address the
/// request names and acknowledges it, and answers each read request with the stored
/// bytes that it names. Then both succeed, and the read delivers the written bytes.
/// The span must lie within the three-byte bit addresses of the requests, and the PDU
/// length within what a controller grants.
#[verifier::spinoff_prover]
#[verifier::rlimit(60)]
pub proof fn law_write_then_read(
    area: Area,
    db_number: i32,
    start: i32,
    n: i32,
    pdu_length: i32,
    image: Seq<u8>,
    buffer: Seq<u8>,
    h0: Seq<Exchange>,
    h1: Seq<Exchange>,
    h2: Seq<Exchange>,
    failed: Seq<Failure>,
    written: Result<(), Error>,
    out_before: Seq<u8>,
    out_after: Seq<u8>,
    read: Result<(), Error>,
)
    requires
        area != Area::Counter,
        area != Area::Timer,
        start >= 0,
        n >= 1,
        start + n <= image.len(),
        (start + n) * 8 <= ADDRESS_SPACE,
        n <= buffer.len(),
        WRITE_PDU_OVERHEAD < pdu_length <= MAX_PDU_LENGTH,
        write_outcome(area, db_number, start, n, WL_BYTE, pdu_length, h0, h1, failed, failed, buffer, written),
        read_outcome(area, db_number, start, n, WL_BYTE, pdu_length, h1, h2, failed, failed, out_before, out_after, read),
        acks_writes(added(h0, h1)),
        answers_reads(added(h1, h2), store_writes(image, added(h0, h1))),
    ensures
        written is Ok,
        read is Ok,
        out_after.subrange(0, n as int) == buffer.subrange(0, n as int),
{
    lemma_normalize_bytes(area, n);
    let rmax = (pdu_length - READ_PDU_OVERHEAD) as int;
    let wmax = (pdu_length - WRITE_PDU_OVERHEAD) as int;
    vstd::arithmetic::div_mod::lemma_div_basics(rmax);
    vstd::arithmetic::div_mod::lemma_div_basics(wmax);
    assert(max_elements(pdu_length, READ_PDU_OVERHEAD, 1) == rmax);
    assert(max_elements(pdu_length, WRITE_PDU_OVERHEAD, 1) == wmax);
    let reads = plan(start as int, n as int, 1, rmax);
    let writes = plan(start as int, n as int, 1, wmax);
    let exw = added(h0, h1);
    let exr = added(h1, h2);
    assert(added(failed, failed).len() == 0);
    lemma_plan_contiguous(start as int, n as int, wmax);
    lemma_plan_contiguous(start as int, n as int, rmax);
    lemma_chunks_within(writes, start as int, start + n);
    lemma_chunks_within(reads, start as int, start + n);
    if exw.len() > 0 {
        assert(write_reply_error(exw[exw.len() - 1].1) == None::<Error>);
    }
    assert(written is Ok);
    assert forall|i: int| 0 <= i < exw.len() implies request_address(#[trigger] exw[i].0) / 8 == writes[i].0
        && request_data(exw[i].0) == buffer.subrange(writes[i].0 - start, writes[i].0 - start + writes[i].1) by {
        let c = writes[i];
        lemma_write_request_fields(area, db_number, c.0, c.1, chunk_data(buffer, start as int, c, 1));
        assert(c.0 * 8 / 8 == c.0);
    }
    lemma_store_writes(image, exw, writes, start as int, start + n, buffer);
    let stored = store_writes(image, exw);
    assert forall|i: int| 0 <= i < exr.len() implies read_reply_error(#[trigger] exr[i].1, reads[i].1 * 1)
        == None::<Error> && exr[i].1.subrange(
        READ_REPLY_HEADER as int,
        READ_REPLY_HEADER as int + reads[i].1,
    ) == stored.subrange(reads[i].0, reads[i].0 + reads[i].1) by {
        let c = reads[i];
        lemma_read_request_fields(area, db_number, c.0, c.1);
        assert(c.0 * 8 / 8 == c.0);
        assert(c.1 * 1 == c.1);
    }
    if exr.len() > 0 {
        assert(read_reply_error(exr[exr.len() - 1].1, reads[exr.len() - 1].1 * 1) == None::<Error>);
    }
    assert(read is Ok);
    lemma_read_contiguous(exr, reads, start as int, start + n, stored);
    assert(stored.subrange(start as int, start + n) =~= buffer.subrange(0, n as int));
    assert(out_after.subrange(0, n as int) =~= read_data(exr, reads, 1));
}

} // verus!
