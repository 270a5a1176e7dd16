//! What holds of the runtime's state at all times, and of its operations for
//! all inputs.

use crate::flow::{RecvEvent, StreamCloseFuture, StreamRecvFuture};
use crate::future::Poll;
use crate::process::{reader_of, woken_back, woken_option};
use crate::streams::lemma_without;
use crate::packet::{Code, HEADER_SIZE, MAX_PACKET_SIZE};
use crate::process::Runtime;
use crate::recv::RecvBuf;
use crate::runtime::{link_of, list_full, list_ok, Core};
use crate::send::{Place, SendLink};
use crate::streams::{Stream, STREAM_PEER_DATA};
use crate::task::{Tasks, Waker, TOP_TASK};
use vstd::prelude::*;

verus! {

/// The names of the services are as many as the services, and no two
/// services have the same name: a name stands for one code, the index at
/// which it was registered.
pub proof fn lemma_names_stand_for_codes(core: &Core, a: int, b: int)
    requires
        core.wf(),
        0 <= a < core.names@.len(),
        0 <= b < core.names@.len(),
        core.names@[a]@ == core.names@[b]@,
    ensures
        a == b,
        core.names@.len() == core.services@.len(),
        core.services@.len() <= crate::runtime::MAX_SERVICES,
{
    if a < b {
        assert(core.names@[a]@ != core.names@[b]@);
    } else if b < a {
        assert(core.names@[b]@ != core.names@[a]@);
    }
}

/// A stream is in the table exactly while one of its four flags is set, and
/// no two streams in the table have the same key.
pub proof fn lemma_stream_listed_while_flagged(rt: &Runtime, s: Stream, t: Stream)
    requires
        rt.wf(),
        rt.streams.valid(s),
        rt.streams.valid(t),
    ensures
        rt.streams.state(s).listed <==> rt.streams.state(s).flags != 0,
        rt.streams.state(s).listed
            ==> rt.streams.has(rt.streams.state(s).code, rt.streams.state(s).id),
        rt.streams.state(s).listed && rt.streams.state(t).listed && rt.streams.state(s).code
            == rt.streams.state(t).code && rt.streams.state(s).id == rt.streams.state(t).id ==> s
            == t,
{
    let st = rt.streams.slots@[s.slot as int];
    let tt = rt.streams.slots@[t.slot as int];
    assert(st.settled());
    if st.listed && tt.listed && st.code == tt.code && st.id == tt.id && s.slot != t.slot {
        if s.slot < t.slot {
            assert(rt.streams.slots@[s.slot as int].listed
                && rt.streams.slots@[t.slot as int].listed);
        } else {
            assert(rt.streams.slots@[t.slot as int].listed
                && rt.streams.slots@[s.slot as int].listed);
        }
    }
}

/// A stream's credit is never negative and never more than a window holds.
pub proof fn lemma_credit_in_bounds(rt: &Runtime, s: Stream)
    requires
        rt.wf(),
        rt.streams.valid(s),
    ensures
        0 <= rt.streams.state(s).writable <= crate::streams::MAX_CREDIT,
        rt.streams.state(s).id >= 0,
{
    assert(rt.streams.slots@[s.slot as int].wf());
}

/// What is still to come of what a receive operation has granted is never
/// negative, and all that was received is within all that was granted.
pub proof fn lemma_received_within_granted(f: &StreamRecvFuture)
    requires
        f.wf(),
    ensures
        f.unreceived >= 0,
        f.received@ <= f.advertised@,
        f.advertised@ - f.received@ == f.unreceived,
{
}

/// The descriptors that wait for a reply from service `c`.
pub open spec fn in_flight(core: &Core, c: Code) -> Set<SendLink> {
    Set::new(
        |l: SendLink|
            l.slot().is_some() && l.slot().unwrap() < core.shares@.len() && core.share(l).place
                == Place::Replying(c),
    )
}

/// The reply queue of a service holds exactly the calls to it that are in
/// flight, each once: its length is their number.
pub proof fn lemma_reply_queue_counts_calls(core: &Core, c: Code)
    requires
        core.wf(),
        0 <= c < core.services@.len(),
    ensures
        core.services@[c as int].replies@.no_duplicates(),
        core.services@[c as int].replies@.to_set() == in_flight(core, c),
        in_flight(core, c).finite(),
        in_flight(core, c).len() == core.services@[c as int].replies@.len(),
{
    let p = Place::Replying(c);
    let q = core.services@[c as int].replies@;
    assert(core.place_valid(p));
    assert(core.list_at(p) == q);
    assert(list_ok(q, core.shares@, p));
    assert(list_full(q, core.shares@, p));
    assert forall|l: SendLink| q.to_set().contains(l) <==> in_flight(core, c).contains(l) by {
        if q.to_set().contains(l) {
            let k = choose|k: int| 0 <= k < q.len() && q[k] == l;
            assert(q[k].slot().is_some());
        }
        if in_flight(core, c).contains(l) {
            let i = l.slot().unwrap() as int;
            assert(core.shares@[i].place == p);
            assert(q.contains(link_of(i)));
            assert(l == link_of(i));
        }
    }
    assert(q.to_set() =~= in_flight(core, c));
    q.unique_seq_to_set();
    vstd::seq_lib::seq_to_set_is_finite(q);
}

/// A descriptor in the send queue is not addressed to a service that is
/// unavailable: what was for it left for its blocked queue when it became
/// unavailable, and what came later went there at once.
pub proof fn lemma_send_queue_is_sendable(core: &Core, k: int)
    requires
        core.wf(),
        0 <= k < core.send_list@.len(),
    ensures
        core.live(core.send_list@[k]),
        core.share(core.send_list@[k]).place == Place::Sending,
        match core.share(core.send_list@[k]).spec_target() {
            Some(c) => c < 0 || core.avail(c),
            None => true,
        },
{
    assert(core.place_valid(Place::Sending));
    assert(core.list_at(Place::Sending)[k] == core.send_list@[k]);
    let i = core.send_list@[k].slot().unwrap() as int;
    assert(core.slot_ok(i));
}

/// A descriptor in a blocked queue is addressed to that queue's service,
/// which is unavailable; while a service is available its blocked queue is
/// empty.
pub proof fn lemma_blocked_queue_is_for_its_service(core: &Core, c: Code, k: int)
    requires
        core.wf(),
        0 <= c < core.services@.len(),
        0 <= k < core.services@[c as int].avail_or_blocked@.len(),
    ensures
        !core.avail(c),
        core.share(core.services@[c as int].avail_or_blocked@[k]).spec_target() == Some(c),
{
    let p = Place::Blocked(c);
    assert(core.place_valid(p));
    assert(core.list_at(p)[k] == core.services@[c as int].avail_or_blocked@[k]);
    let i = core.list_at(p)[k].slot().unwrap() as int;
    assert(core.slot_ok(i));
}

/// A packet that is dispatched lies whole in the head span of the receive
/// buffer, padding included, and is the start of what is pending: however
/// the host cut what it delivered, no packet is seen in parts.
pub proof fn lemma_head_packet_is_whole(buf: &RecvBuf)
    requires
        buf.wf(),
        buf.packet_ready(),
        HEADER_SIZE <= buf.size_at(buf.head.off as int) <= MAX_PACKET_SIZE,
    ensures
        buf.head.off + buf.size_at(buf.head.off as int) <= buf.head.off + buf.head_packet_len()
            <= buf.head.end,
        buf.packet_at(buf.head.off as int) == buf.pending().take(
            buf.size_at(buf.head.off as int),
        ),
        buf.consumed_fault().is_none(),
{
    let size = buf.size_at(buf.head.off as int);
    crate::packet::lemma_align(size as nat);
    assert(buf.packet_at(buf.head.off as int) =~= buf.pending().take(size));
}

/// A receive operation with nothing to ask for and nothing to come, on a
/// stream that is open and has no data waiting, is done at once, and sends
/// no flow packet.
pub proof fn lemma_zero_capacity_is_drained(
    before: &StreamRecvFuture,
    mid: &StreamRecvFuture,
    after: &StreamRecvFuture,
    rt0: &Runtime,
    rt_mid: &Runtime,
    rt: &Runtime,
    waker: Waker,
    r: Result<RecvEvent<'_>, crate::error::Fault>,
)
    requires
        before.wf(),
        before.s.is_some(),
        rt0.streams.valid(before.s.unwrap()),
        before.unsubscribed == 0,
        before.unreceived == 0,
        !before.flow_started,
        rt0.streams.state(before.s.unwrap()).flags & STREAM_PEER_DATA != 0,
        !(rt0.streams.state(before.s.unwrap()).recv is Offset),
        StreamRecvFuture::prepared(before, mid, rt_mid, rt0),
        after.outcome(mid, rt, rt_mid, waker, r),
    ensures
        r is Ok,
        r->Ok_0 is Drained,
        rt.core == rt0.core,
        rt.streams == rt0.streams,
        rt.recv_buf == rt0.recv_buf,
{
}

/// No task is in the ready queue twice, and the top-level task is never in
/// it.
pub proof fn lemma_ready_once(tasks: &Tasks, i: int, j: int)
    requires
        tasks.wf(),
        0 <= i < tasks.ready().len(),
        0 <= j < tasks.ready().len(),
        tasks.ready()[i] == tasks.ready()[j],
    ensures
        i == j,
        tasks.ready()[i] != TOP_TASK,
{
    assert(tasks.ready().contains(tasks.ready()[i]));
}

/// A close that comes after the peer has closed its data half does not wait
/// for it: it finds the flag clear and is done at once.
pub proof fn lemma_close_after_peer_closed(
    rt0: &Runtime,
    rt1: &Runtime,
    rt2: &Runtime,
    close0: &StreamCloseFuture,
    close1: &StreamCloseFuture,
    note: i32,
    offset: usize,
    waker: Waker,
    r: Poll<()>,
)
    requires
        rt0.wf(),
        close0.s.is_some(),
        rt0.streams.valid(close0.s.unwrap()),
        rt0.streams.state(close0.s.unwrap()).listed,
        close0.wait == STREAM_PEER_DATA,
        // The peer's empty data packet is taken in first.
        rt1.data_taken(
            rt0,
            rt0.streams.state(close0.s.unwrap()).code,
            rt0.streams.state(close0.s.unwrap()).id,
            0,
            note,
            offset,
        ),
        // Then the close is polled.
        close1.closed(close0, rt2, rt1, waker, r),
    ensures
        r is Ready,
        close1.s.is_none(),
        rt2.streams.state(close0.s.unwrap()).flags & STREAM_PEER_DATA == 0,
        rt2.streams.state(close0.s.unwrap()).closers@.len() == 0,
        rt2.streams.state(close0.s.unwrap()).recv_err == note,
{
    let s = close0.s.unwrap();
    let st = rt0.streams.state(s);
    rt0.streams.lemma_listed(st.code, st.id, s);
    let mid = rt1.streams.state(s);
    let closing = close0.how & mid.flags;
    lemma_without(st.flags, STREAM_PEER_DATA);
    lemma_without(mid.flags, closing);
    let f = mid.flags;
    let g = crate::streams::without(f, closing);
    assert(f & STREAM_PEER_DATA == 0 && g <= f && g == f & !closing ==> g & STREAM_PEER_DATA == 0)
        by (bit_vector);
}

/// A close that comes before the peer has closed its data half waits for it
/// among the stream's closers; when the peer's close comes, the closers are
/// woken and none is left.
pub proof fn lemma_close_before_peer_closed(
    rt0: &Runtime,
    rt1: &Runtime,
    rt2: &Runtime,
    close0: &StreamCloseFuture,
    close1: &StreamCloseFuture,
    note: i32,
    offset: usize,
    waker: Waker,
    r: Poll<()>,
)
    requires
        rt0.wf(),
        rt1.wf(),
        close0.s.is_some(),
        rt0.streams.valid(close0.s.unwrap()),
        rt0.streams.state(close0.s.unwrap()).flags & STREAM_PEER_DATA != 0,
        close0.how & STREAM_PEER_DATA == 0,
        close0.wait == STREAM_PEER_DATA,
        // The close is polled first.
        close1.closed(close0, rt1, rt0, waker, r),
        // Then the peer's empty data packet is taken in.
        rt2.data_taken(
            rt1,
            rt0.streams.state(close0.s.unwrap()).code,
            rt0.streams.state(close0.s.unwrap()).id,
            0,
            note,
            offset,
        ),
    ensures
        r is Pending,
        close1.s == close0.s,
        rt1.streams.state(close0.s.unwrap()).closers@.last() == waker,
        rt1.streams.state(close0.s.unwrap()).listed,
        rt2.streams.state(close0.s.unwrap()).flags & STREAM_PEER_DATA == 0,
        rt2.streams.state(close0.s.unwrap()).closers@.len() == 0,
        rt2.core.tasks.state() == woken_option(
            woken_back(
                rt1.core.tasks.state(),
                rt1.core.tasks.next_id(),
                rt1.streams.state(close0.s.unwrap()).closers@,
            ),
            rt1.core.tasks.next_id(),
            reader_of(rt1.streams.state(close0.s.unwrap()).recv),
        ),
{
    let s = close0.s.unwrap();
    let st = rt0.streams.state(s);
    let closing = close0.how & st.flags;
    lemma_without(st.flags, closing);
    let f = st.flags;
    let h = close0.how;
    assert(f & STREAM_PEER_DATA != 0 && h & STREAM_PEER_DATA == 0 ==> (f & !(h & f))
        & STREAM_PEER_DATA != 0) by (bit_vector);
    let mid = rt1.streams.state(s);
    assert(mid.flags != 0) by {
        let m = mid.flags;
        assert(m & STREAM_PEER_DATA != 0 ==> m != 0) by (bit_vector);
    }
    assert(rt1.streams.slots@[s.slot as int].settled());
    rt1.streams.lemma_listed(st.code, st.id, s);
    lemma_without(mid.flags, STREAM_PEER_DATA);
}

} // verus!
