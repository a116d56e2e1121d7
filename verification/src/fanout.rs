//! What a request made of every port of a handle does to the
//! histories of the ports.

use vstd::prelude::*;
use core::time::Duration;
use crate::codec::{prefix, RESPONSE_SIZE};
use crate::error::Error;
use crate::transport::Exchange;

verus! {

/// One thing that a handle asks of each of its ports in turn.
pub enum Request {
    /// Write these bytes, then flush.
    Send(Seq<u8>),
    /// Read one reply.
    Receive,
    /// Change the read timeout.
    Timeout(Duration),
}

/// The history of a port after `frame` was written to it and flushed.
pub open spec fn delivered(before: Seq<Exchange>, frame: Seq<u8>) -> Seq<Exchange> {
    before.push(Exchange::Write(frame, None)).push(Exchange::Flush(None))
}

/// The reply that a history ends with; empty where it does not end with one.
pub open spec fn reply_of(history: Seq<Exchange>) -> Seq<u8> {
    if history.len() == 0 {
        Seq::empty()
    } else {
        match history.last() {
            Exchange::Read(Ok(reply)) => reply,
            _ => Seq::empty(),
        }
    }
}

/// The status byte of the reply that a history ends with.
pub open spec fn status_of(history: Seq<Exchange>) -> u8 {
    reply_of(history)[0]
}

/// The port served the request: `after` is `before` with exactly the
/// successful exchanges of the request added.
pub open spec fn served(before: Seq<Exchange>, after: Seq<Exchange>, request: Request) -> bool {
    match request {
        Request::Send(frame) => after == delivered(before, frame),
        Request::Receive => {
            &&& after == before.push(Exchange::Read(Ok(reply_of(after))))
            &&& reply_of(after).len() == RESPONSE_SIZE
        },
        Request::Timeout(timeout) => after == before.push(Exchange::SetTimeout(timeout, None)),
    }
}

/// The port failed the request with `e`: `after` is `before` with the
/// exchanges up to and including the one that failed.
pub open spec fn failed(
    before: Seq<Exchange>,
    after: Seq<Exchange>,
    request: Request,
    e: Error,
) -> bool {
    match request {
        Request::Send(frame) => {
            ||| after == before.push(Exchange::Write(frame, Some(e)))
            ||| after == before.push(Exchange::Write(frame, None)).push(Exchange::Flush(Some(e)))
        },
        Request::Receive => after == before.push(Exchange::Read(Err(e))),
        Request::Timeout(timeout) => after == before.push(
            Exchange::SetTimeout(timeout, Some(e)),
        ),
    }
}

/// Port `k` failed the request with `e`; every port before it served
/// the request and no port after it was touched.
pub open spec fn stopped_at(
    before: Seq<Seq<Exchange>>,
    after: Seq<Seq<Exchange>>,
    request: Request,
    e: Error,
    k: int,
) -> bool {
    &&& 0 <= k < before.len()
    &&& forall|i: int| 0 <= i < k ==> served(before[i], #[trigger] after[i], request)
    &&& failed(before[k], after[k], request, e)
    &&& forall|i: int| k < i < before.len() ==> #[trigger] after[i] == before[i]
}

/// The request was made of the ports in order, stopping at the first
/// failure. With no failure every port served it; with failure `e`
/// some port failed with exactly `e`, and the ports after it were not
/// asked. No link says beforehand whether it will fail, so a later
/// port is never asked before an earlier one has served the request.
pub open spec fn fanned(
    before: Seq<Seq<Exchange>>,
    after: Seq<Seq<Exchange>>,
    request: Request,
    failure: Option<Error>,
) -> bool {
    &&& after.len() == before.len()
    &&& match failure {
        None => forall|i: int|
            0 <= i < before.len() ==> served(before[i], #[trigger] after[i], request),
        Some(e) => exists|k: int| stopped_at(before, after, request, e, k),
    }
}

/// The histories of all ports after `frame` was delivered to each.
pub open spec fn delivered_all(before: Seq<Seq<Exchange>>, frame: Seq<u8>) -> Seq<Seq<Exchange>> {
    Seq::new(before.len(), |i: int| delivered(before[i], frame))
}

/// The histories of all ports after each of `frames` was delivered to
/// every port, one frame after the other.
pub open spec fn delivered_in_turn(
    before: Seq<Seq<Exchange>>,
    frames: Seq<Seq<u8>>,
) -> Seq<Seq<Exchange>>
    decreases frames.len(),
{
    if frames.len() == 0 {
        before
    } else {
        delivered_all(delivered_in_turn(before, frames.drop_last()), frames.last())
    }
}

/// Frame `j` of `frames` failed with `e` after the frames before it
/// had reached every port.
pub open spec fn broke_at(
    before: Seq<Seq<Exchange>>,
    after: Seq<Seq<Exchange>>,
    frames: Seq<Seq<u8>>,
    e: Error,
    j: int,
) -> bool {
    &&& 0 <= j < frames.len()
    &&& fanned(
        delivered_in_turn(before, frames.take(j)),
        after,
        Request::Send(frames[j]),
        Some(e),
    )
}

/// The frames were sent one after the other, each to every port,
/// stopping at the first failure.
pub open spec fn sent_in_turn(
    before: Seq<Seq<Exchange>>,
    after: Seq<Seq<Exchange>>,
    frames: Seq<Seq<u8>>,
    failure: Option<Error>,
) -> bool {
    match failure {
        None => after == delivered_in_turn(before, frames),
        Some(e) => exists|j: int| broke_at(before, after, frames, e, j),
    }
}

/// `frame` was sent to every port and one reply read from each,
/// stopping at the first failure of either step.
pub open spec fn queried(
    before: Seq<Seq<Exchange>>,
    after: Seq<Seq<Exchange>>,
    frame: Seq<u8>,
    failure: Option<Error>,
) -> bool {
    match failure {
        None => fanned(delivered_all(before, frame), after, Request::Receive, None),
        Some(e) => {
            ||| fanned(before, after, Request::Send(frame), Some(e))
            ||| fanned(delivered_all(before, frame), after, Request::Receive, Some(e))
        },
    }
}

/// The status byte that each port last replied with, in port order.
pub open spec fn statuses_of(histories: Seq<Seq<Exchange>>) -> Seq<u8> {
    Seq::new(histories.len(), |i: int| status_of(histories[i]))
}

/// A send that no port failed leaves exactly the delivered histories.
pub proof fn lemma_fanned_send(
    before: Seq<Seq<Exchange>>,
    after: Seq<Seq<Exchange>>,
    frame: Seq<u8>,
)
    ensures
        fanned(before, after, Request::Send(frame), None) <==> after == delivered_all(
            before,
            frame,
        ),
{
    if fanned(before, after, Request::Send(frame), None) {
        assert(after =~= delivered_all(before, frame));
    }
}

/// Sending one more frame extends what was delivered in turn.
pub proof fn lemma_delivered_in_turn_push(
    before: Seq<Seq<Exchange>>,
    frames: Seq<Seq<u8>>,
    frame: Seq<u8>,
)
    ensures
        delivered_in_turn(before, frames.push(frame)) == delivered_all(
            delivered_in_turn(before, frames),
            frame,
        ),
{
    assert(frames.push(frame).drop_last() =~= frames);
}

/// The history of one port after each of `frames` was delivered to
/// it, one after the other.
pub open spec fn delivered_each(before: Seq<Exchange>, frames: Seq<Seq<u8>>) -> Seq<Exchange>
    decreases frames.len(),
{
    if frames.len() == 0 {
        before
    } else {
        delivered(delivered_each(before, frames.drop_last()), frames.last())
    }
}

/// The bytes that a history put on the wire: those of every write
/// that the link took, in order.
pub open spec fn wire(history: Seq<Exchange>) -> Seq<u8>
    decreases history.len(),
{
    if history.len() == 0 {
        Seq::empty()
    } else {
        match history.last() {
            Exchange::Write(bytes, None) => wire(history.drop_last()) + bytes,
            _ => wire(history.drop_last()),
        }
    }
}

/// The frames laid end to end.
pub open spec fn laid_out(frames: Seq<Seq<u8>>) -> Seq<u8>
    decreases frames.len(),
{
    if frames.len() == 0 {
        Seq::empty()
    } else {
        laid_out(frames.drop_last()) + frames.last()
    }
}

/// One more exchange adds its bytes to the wire if it is a write
/// that the link took, and nothing otherwise.
pub proof fn lemma_wire_push(history: Seq<Exchange>, exchange: Exchange)
    ensures
        wire(history.push(exchange)) == match exchange {
            Exchange::Write(bytes, None) => wire(history) + bytes,
            _ => wire(history),
        },
{
    assert(history.push(exchange).drop_last() =~= history);
}

/// Frames sent in turn reach every port: each port has the frames
/// delivered in the same order.
pub proof fn lemma_delivered_in_turn_per_port(
    before: Seq<Seq<Exchange>>,
    frames: Seq<Seq<u8>>,
    i: int,
)
    requires
        0 <= i < before.len(),
    ensures
        delivered_in_turn(before, frames).len() == before.len(),
        delivered_in_turn(before, frames)[i] == delivered_each(before[i], frames),
    decreases frames.len(),
{
    if frames.len() > 0 {
        lemma_delivered_in_turn_per_port(before, frames.drop_last(), i);
    }
}

/// Delivering frames puts exactly their bytes on the wire, in order.
pub proof fn lemma_wire_of_delivered(before: Seq<Exchange>, frames: Seq<Seq<u8>>)
    ensures
        wire(delivered_each(before, frames)) == wire(before) + laid_out(frames),
    decreases frames.len(),
{
    if frames.len() == 0 {
        assert(wire(before) + laid_out(frames) =~= wire(before));
    } else {
        let earlier = delivered_each(before, frames.drop_last());
        let written = earlier.push(Exchange::Write(frames.last(), None));
        lemma_wire_of_delivered(before, frames.drop_last());
        lemma_wire_push(earlier, Exchange::Write(frames.last(), None));
        lemma_wire_push(written, Exchange::Flush(None));
        assert(wire(before) + laid_out(frames.drop_last()) + frames.last() =~= wire(before) + (
        laid_out(frames.drop_last()) + frames.last()));
    }
}

/// Whether every write of a history starts with the prefix of the protocol.
pub open spec fn prefixed(history: Seq<Exchange>) -> bool {
    forall|i: int|
        0 <= i < history.len() ==> (#[trigger] history[i] matches Exchange::Write(bytes, _)
            ==> bytes.len() >= 2 && bytes.subrange(0, 2) == prefix())
}

/// A request leaves the writes of every port prefixed if they were
/// before and the request sends nothing without the prefix.
pub proof fn lemma_requests_keep_frames_prefixed(
    before: Seq<Seq<Exchange>>,
    after: Seq<Seq<Exchange>>,
    request: Request,
    failure: Option<Error>,
)
    requires
        fanned(before, after, request, failure),
        forall|i: int| 0 <= i < before.len() ==> prefixed(#[trigger] before[i]),
        request matches Request::Send(frame) ==> frame.len() >= 2 && frame.subrange(0, 2)
            == prefix(),
    ensures
        forall|i: int| 0 <= i < after.len() ==> prefixed(#[trigger] after[i]),
{
    assert forall|i: int| 0 <= i < after.len() implies prefixed(#[trigger] after[i]) by {
        assert(prefixed(before[i]));
        match failure {
            None => {
                assert(served(before[i], after[i], request));
            },
            Some(e) => {
                let k = choose|k: int| stopped_at(before, after, request, e, k);
                if i < k {
                    assert(served(before[i], after[i], request));
                } else if i == k {
                    assert(failed(before[i], after[i], request, e));
                } else {
                    assert(after[i] == before[i]);
                }
            },
        }
    }
}

} // verus!
