//! The whole runtime, and what happens to streams: opening, closing from
//! either side, credit and data.

use crate::error::Fault;
use crate::packet;
use crate::packet::{
    spec_data_header, spec_flow_entry, spec_header, Code, StreamId, DATA_HEADER_SIZE,
    DOMAIN_FLOW, FLOW_SIZE, HEADER_SIZE,
};
use crate::recv::RecvBuf;
use crate::runtime::Core;
use crate::send::{SendLink, Share};
use crate::streams::{
    lemma_without, without, Recv, Stream, StreamFlags, StreamState, Streams, MAX_CREDIT,
    STREAM_ALL, STREAM_PEER_DATA, STREAM_PEER_FLOW, STREAM_SELF_DATA, STREAM_SELF_FLOW,
};
use crate::task::{Tasks, Waker};
use vstd::prelude::*;

verus! {

/// The flow packet that closes this side's flow half of a stream: one entry
/// with increment zero.
pub open spec fn spec_close_flow_packet(code: Code, id: StreamId) -> Seq<u8> {
    spec_header(HEADER_SIZE + FLOW_SIZE, code, DOMAIN_FLOW) + spec_flow_entry(id, 0)
}

/// The data packet that closes this side's data half of a stream: no data,
/// and the note zero.
pub open spec fn spec_close_data_packet(code: Code, id: StreamId) -> Seq<u8> {
    spec_data_header(DATA_HEADER_SIZE as int, code, id, 0)
}

/// A descriptor that no operation owns, for a packet without content.
pub open spec fn close_share(sh: Share, packet: Seq<u8>) -> bool {
    &&& sh.wf()
    &&& sh.spec_header() == packet
    &&& sh.spec_content().len() == 0
    &&& sh.sent == 0
    &&& sh.reply.x == -2
    &&& sh.waker.is_none()
    &&& sh.place == crate::send::Place::Held
    &&& sh.detached
}

/// The state after a packet without owner and content was put into a free
/// slot and queued.
pub open spec fn queued(after: &Core, before: &Core, packet: Seq<u8>) -> bool {
    exists|link: SendLink, sh: Share|
        close_share(sh, packet) && #[trigger] after.submitted(before, link, sh)
}

/// The ready queue, and the top-level task's request, after each of `wakers`
/// was woken, the last first.
pub open spec fn woken_back(state: (Seq<usize>, bool), next_id: usize, wakers: Seq<Waker>) -> (
    Seq<usize>,
    bool,
)
    decreases wakers.len(),
{
    if wakers.len() == 0 {
        state
    } else {
        woken_back(Tasks::woken(state, next_id, Some(wakers.last())), next_id, wakers.drop_last())
    }
}

/// The ready queue, and the top-level task's request, after an optional waker
/// was woken.
pub open spec fn woken_option(state: (Seq<usize>, bool), next_id: usize, waker: Option<Waker>) -> (
    Seq<usize>,
    bool,
) {
    Tasks::woken(state, next_id, waker)
}

/// The reader's waker, where the receive slot holds one.
pub open spec fn reader_of(recv: Recv) -> Option<Waker> {
    crate::streams::waiting(recv)
}

/// The peer has closed the halves `how` of a stream: the flags are cleared,
/// and woken are the tasks that wait for the stream to close, the last to
/// come first, then the reader if the data half closed, then the writer if
/// the flow half closed.
pub fn peer_closed_stream(s: &mut StreamState, how: StreamFlags, tasks: &mut Tasks)
    requires
        old(s).wf(),
        old(s).flags & how == how,
        old(tasks).wf(),
    ensures
        final(s).wf(),
        final(tasks).wf(),
        final(s).flags == without(old(s).flags, how),
        final(s).code == old(s).code,
        final(s).id == old(s).id,
        final(s).recv_err == old(s).recv_err,
        final(s).writable == old(s).writable,
        final(s).write_err == old(s).write_err,
        final(s).listed == old(s).listed,
        final(s).handles == old(s).handles,
        final(s).closers@.len() == 0,
        final(s).recv == (if how & STREAM_PEER_DATA != 0 && reader_of(old(s).recv).is_some() {
            Recv::Empty
        } else {
            old(s).recv
        }),
        final(s).writer == (if how & STREAM_PEER_FLOW != 0 {
            None
        } else {
            old(s).writer
        }),
        final(tasks).state() == woken_option(
            woken_option(
                woken_back(old(tasks).state(), old(tasks).next_id(), old(s).closers@),
                old(tasks).next_id(),
                if how & STREAM_PEER_DATA != 0 {
                    reader_of(old(s).recv)
                } else {
                    None
                },
            ),
            old(tasks).next_id(),
            if how & STREAM_PEER_FLOW != 0 {
                old(s).writer
            } else {
                None
            },
        ),
        final(tasks).next_id() == old(tasks).next_id(),
        final(tasks).draining() == old(tasks).draining(),
{
    s.clear_flags(how);
    loop
        invariant
            s.wf(),
            tasks.wf(),
            s.flags == without(old(s).flags, how),
            s.code == old(s).code,
            s.id == old(s).id,
            s.recv == old(s).recv,
            s.recv_err == old(s).recv_err,
            s.writable == old(s).writable,
            s.writer == old(s).writer,
            s.write_err == old(s).write_err,
            s.listed == old(s).listed,
            s.handles == old(s).handles,
            tasks.next_id() == old(tasks).next_id(),
            tasks.draining() == old(tasks).draining(),
            woken_back(tasks.state(), tasks.next_id(), s.closers@) == woken_back(
                old(tasks).state(),
                old(tasks).next_id(),
                old(s).closers@,
            ),
        ensures
            s.closers@.len() == 0,
        decreases s.closers@.len(),
    {
        let ghost before = s.closers@;
        match s.closers.pop() {
            Some(w) => {
                proof {
                    assert(before.last() == w);
                    assert(s.closers@ =~= before.drop_last());
                }
                tasks.wake(w);
            },
            None => {
                break ;
            },
        }
    }
    if (how & STREAM_PEER_DATA) != 0 {
        let w = s.recv.take_waker();
        tasks.wake_option(w);
    }
    if (how & STREAM_PEER_FLOW) != 0 {
        let w = s.writer;
        s.writer = None;
        tasks.wake_option(w);
    }
}

/// The runtime's whole state.
pub struct Runtime {
    pub core: Core,
    pub streams: Streams,
    pub recv_buf: RecvBuf,
    /// Whether the host has said, since the last host call was prepared, that
    /// execution has started or was resumed.  The next host call does not
    /// wait.
    pub resumed: bool,
}

impl Runtime {
    /// Everything that holds of the state between two operations.
    pub open spec fn wf(&self) -> bool {
        &&& self.core.wf()
        &&& self.streams.wf(self.core.services@.len() as int)
        &&& self.recv_buf.wf()
    }

    /// The state in which nothing was registered, opened, queued or received.
    pub fn new() -> (r: Self)
        ensures
            r.wf(),
            r.core.services@.len() == 0,
            r.core.shares@.len() == 0,
            r.core.send_list@.len() == 0,
            r.streams.slots@.len() == 0,
            r.recv_buf.pending() == Seq::<u8>::empty(),
            r.core.tasks.ready() == Seq::<usize>::empty(),
            !r.resumed,
    {
        Runtime {
            core: Core::new(),
            streams: Streams::new(),
            recv_buf: RecvBuf::default(),
            resumed: false,
        }
    }
}

impl Runtime {
    /// The state of a new stream with one handle: in the table if a flag is
    /// set.
    pub open spec fn opened(code: Code, id: StreamId, flags: StreamFlags, st: StreamState) -> bool {
        &&& st.code == code
        &&& st.id == id
        &&& st.flags == flags
        &&& st.recv == Recv::Empty
        &&& st.recv_err == 0
        &&& st.writable == 0
        &&& st.writer.is_none()
        &&& st.write_err == 0
        &&& st.closers@.len() == 0
        &&& st.listed == (flags != 0)
        &&& st.handles == 1
    }

    /// Opens a stream of a registered service and puts it into the table.
    /// The handle is `None` only when the table cannot take one more.
    pub fn init_stream(&mut self, code: Code, id: StreamId, flags: StreamFlags) -> (r: Option<
        Stream,
    >)
        requires
            old(self).wf(),
            id >= 0,
            0 <= code < old(self).core.services@.len(),
            flags <= STREAM_ALL,
            !old(self).streams.has(code, id),
        ensures
            final(self).wf(),
            final(self).core.registry_kept(&old(self).core),
            final(self).resumed == old(self).resumed,
            final(self).core == old(self).core,
            final(self).recv_buf == old(self).recv_buf,
            old(self).streams.slots@.len() < usize::MAX ==> r.is_some(),
            match r {
                Some(s) => {
                    &&& final(self).streams.valid(s)
                    &&& Self::opened(code, id, flags, final(self).streams.state(s))
                    &&& old(self).streams.valid(s) ==> !old(self).streams.state(s).listed
                        && old(self).streams.state(s).handles == 0
                    &&& old(self).streams.slots@.len() <= final(self).streams.slots@.len()
                    &&& forall|i: int|
                        0 <= i < old(self).streams.slots@.len() && i != s.slot
                            ==> final(self).streams.slots@[i] == old(self).streams.slots@[i]
                },
                None => final(self).streams == old(self).streams,
            },
    {
        let mut state = StreamState::new(code, id, flags);
        state.listed = flags != 0;
        state.handles = 1;
        let mut i: usize = 0;
        let mut found: Option<usize> = None;
        while i < self.streams.slots.len()
            invariant_except_break
                found.is_none(),
            invariant
                i <= self.streams.slots@.len(),
                self.streams == old(self).streams,
            ensures
                match found {
                    Some(k) => k < self.streams.slots@.len()
                        && !self.streams.slots@[k as int].listed
                        && self.streams.slots@[k as int].handles == 0,
                    None => true,
                },
            decreases self.streams.slots@.len() - i,
        {
            if !self.streams.slots[i].listed && self.streams.slots[i].handles == 0 {
                found = Some(i);
                break ;
            }
            i += 1;
        }
        let slot: usize = match found {
            Some(k) => {
                self.streams.slots[k] = state;
                k
            },
            None => {
                if self.streams.slots.len() == usize::MAX {
                    return None;
                }
                self.streams.slots.push(state);
                self.streams.slots.len() - 1
            },
        };
        proof {
            let n = self.core.services@.len() as int;
            let new = self.streams.slots@;
            let before = old(self).streams.slots@;
            assert forall|a: int, b: int|
                0 <= a < b < new.len() && (#[trigger] new[a]).listed
                    && (#[trigger] new[b]).listed implies new[a].code
                != new[b].code || new[a].id != new[b].id by {
                if a != slot && b != slot {
                    assert(new[a] == before[a]);
                    assert(new[b] == before[b]);
                } else {
                    let other = if a == slot {
                        b
                    } else {
                        a
                    };
                    assert(new[other] == before[other]);
                    assert(before[other].listed);
                }
            }
            assert forall|k: int| 0 <= k < new.len() implies (#[trigger] new[k]).wf()
                && new[k].settled()
                && 0 <= new[k].code < n by {
                if k != slot {
                    assert(new[k] == before[k]);
                }
            }
        }
        Some(Stream { slot })
    }

    /// Whether a descriptor for a packet of stream `s` may be queued.
    pub proof fn lemma_stream_addressed(&self, s: Stream, sh: Share)
        requires
            self.wf(),
            self.streams.valid(s),
            sh.reply.x == -2,
            sh.spec_header().len() >= HEADER_SIZE,
            packet::spec_code(sh.spec_header()) == self.streams.state(s).code,
        ensures
            self.core.addressed(sh),
    {
    }

    /// The state after the close packets for the halves `how` of stream
    /// `(code, id)` were queued: first the flow packet, if this side's flow
    /// half is among them, then the data packet, if its data half is.
    pub open spec fn close_sent(
        &self,
        before: &Core,
        code: Code,
        id: StreamId,
        how: StreamFlags,
    ) -> bool {
        let flow = spec_close_flow_packet(code, id);
        let data = spec_close_data_packet(code, id);
        if how & STREAM_SELF_FLOW != 0 && how & STREAM_SELF_DATA != 0 {
            exists|mid: Core| #[trigger] queued(&mid, before, flow)
                && queued(&self.core, &mid, data)
        } else if how & STREAM_SELF_FLOW != 0 {
            queued(&self.core, before, flow)
        } else if how & STREAM_SELF_DATA != 0 {
            queued(&self.core, before, data)
        } else {
            self.core == *before
        }
    }

    /// Queues the packets that tell the peer which halves of a stream this
    /// side has closed.
    pub fn send_close_packets(&mut self, s: Stream, how: StreamFlags) -> (r: Result<(), Fault>)
        requires
            old(self).wf(),
            old(self).streams.valid(s),
        ensures
            final(self).wf(),
            final(self).core.registry_kept(&old(self).core),
            final(self).resumed == old(self).resumed,
            final(self).streams == old(self).streams,
            final(self).recv_buf == old(self).recv_buf,
            old(self).core.shares@.len() < usize::MAX - 3 ==> r.is_ok(),
            match r {
                Ok(()) => final(self).close_sent(
                    &old(self).core,
                    old(self).streams.state(s).code,
                    old(self).streams.state(s).id,
                    how,
                ),
                Err(e) => e == Fault::OutOfDescriptors,
            },
    {
        let code: Code = self.streams.slots[s.slot].code;
        let id: StreamId = self.streams.slots[s.slot].id;
        let ghost mut mid: Core = self.core;
        if (how & STREAM_SELF_FLOW) != 0 {
            let mut p: Vec<u8> = Vec::new();
            p.resize(HEADER_SIZE + FLOW_SIZE, 0u8);
            packet::header_into(p.as_mut_slice(), HEADER_SIZE + FLOW_SIZE, code, DOMAIN_FLOW);
            packet::flow_into(p.as_mut_slice(), 0, id, 0);
            assert(p@ =~= spec_close_flow_packet(code, id));
            let mut share = Share::packet(p, Vec::new());
            share.detached = true;
            proof {
                packet::lemma_header_round_trip((HEADER_SIZE
                    + FLOW_SIZE) as u32, code, DOMAIN_FLOW);
                assert(packet::spec_code(share.spec_header()) == code);
                self.lemma_stream_addressed(s, share);
            }
            let ghost s1 = share;
            match self.core.submit(share) {
                Ok(link) => {
                    proof {
                        mid = self.core;
                        assert(mid.submitted(&old(self).core, link, s1));
                        assert(queued(&mid, &old(self).core, spec_close_flow_packet(code, id)));
                    }
                },
                Err(e) => {
                    return Err(e);
                },
            }
        }
        if (how & STREAM_SELF_DATA) != 0 {
            let mut p: Vec<u8> = Vec::new();
            p.resize(DATA_HEADER_SIZE, 0u8);
            packet::data_header_into(p.as_mut_slice(), DATA_HEADER_SIZE, code, id, 0);
            assert(p@ =~= spec_close_data_packet(code, id));
            let mut share = Share::packet(p, Vec::new());
            share.detached = true;
            proof {
                packet::lemma_data_header_round_trip(DATA_HEADER_SIZE as u32, code, id, 0);
                assert(packet::spec_code(share.spec_header()) == code);
                self.lemma_stream_addressed(s, share);
            }
            let ghost s2 = share;
            match self.core.submit(share) {
                Ok(link) => {
                    proof {
                        assert(self.core.submitted(&mid, link, s2));
                        assert(queued(&self.core, &mid, spec_close_data_packet(code, id)));
                    }
                },
                Err(e) => {
                    return Err(e);
                },
            }
        }
        Ok(())
    }
}

impl Runtime {
    /// Only the state of stream `s` differs from before.
    pub open spec fn only_stream_changed(&self, before: &Runtime, s: Stream) -> bool {
        &&& self.streams.slots@.len() == before.streams.slots@.len()
        &&& forall|i: int|
            0 <= i < before.streams.slots@.len() && i != s.slot
                ==> #[trigger] self.streams.slots@[i] == before.streams.slots@[i]
    }

    /// The table stays in order when one stream's flags shrink and it leaves
    /// the table if none is left.
    pub proof fn lemma_stream_changed(&self, before: &Runtime, s: Stream)
        requires
            before.wf(),
            before.streams.valid(s),
            self.only_stream_changed(before, s),
            self.core.services@.len() == before.core.services@.len(),
            self.streams.state(s).wf(),
            self.streams.state(s).settled(),
            self.streams.state(s).code == before.streams.state(s).code,
            self.streams.state(s).id == before.streams.state(s).id,
            self.streams.state(s).listed ==> before.streams.state(s).listed,
        ensures
            self.streams.wf(self.core.services@.len() as int),
    {
        let new = self.streams.slots@;
        let old = before.streams.slots@;
        assert forall|a: int, b: int|
            0 <= a < b < new.len() && (#[trigger] new[a]).listed
                && (#[trigger] new[b]).listed implies new[a].code
            != new[b].code || new[a].id != new[b].id by {
            assert(old[a].listed && old[b].listed);
            assert(new[a].code == old[a].code && new[a].id == old[a].id);
            assert(new[b].code == old[b].code && new[b].id == old[b].id);
        }
        assert forall|k: int| 0 <= k < new.len() implies (#[trigger] new[k]).wf()
            && new[k].settled()
            && 0 <= new[k].code < self.core.services@.len() by {
            assert(old[k].wf());
            if k != s.slot {
                assert(new[k] == old[k]);
            }
        }
    }

    /// The state after a handle to a stream was given up.  The halves of
    /// `how` that were still open are closed, the stream has left the table
    /// if no half is left, and the close packets are queued.
    pub open spec fn dropped(
        &self,
        earlier: &Runtime,
        s: Option<Stream>,
        how: StreamFlags,
        r: Result<(), Fault>,
    ) -> bool {
        &&& self.recv_buf == earlier.recv_buf
        &&& self.resumed == earlier.resumed
        &&& s.is_none() ==> r.is_ok() && self.core == earlier.core && self.streams
                == earlier.streams
        &&& s.is_some() ==> ({
                let before = earlier.streams.state(s.unwrap());
                let after = self.streams.state(s.unwrap());
                let closing = how & before.flags;
                &&& self.only_stream_changed(earlier, s.unwrap())
                &&& after.flags == without(before.flags, closing)
                &&& after.listed == (before.listed && after.flags != 0)
                &&& after.handles == (if before.handles > 0 {
                    (before.handles - 1) as usize
                } else {
                    0
                })
                &&& after.code == before.code
                &&& after.id == before.id
                &&& after.recv == before.recv
                &&& after.recv_err == before.recv_err
                &&& after.writable == before.writable
                &&& after.writer == before.writer
                &&& after.write_err == before.write_err
                &&& after.closers == before.closers
                &&& earlier.core.shares@.len() < usize::MAX - 3 ==> r.is_ok()
                &&& match r {
                    Ok(()) => self.close_sent(&earlier.core, before.code, before.id, closing),
                    Err(e) => e == Fault::OutOfDescriptors,
                }
            })
    }

    /// Gives up a handle to a stream.  The halves of `how` that are still
    /// open are closed, the stream leaves the table if no half is left, and
    /// the peer is told.
    pub fn drop_stream(&mut self, s: Option<Stream>, how: StreamFlags) -> (r: Result<(), Fault>)
        requires
            old(self).wf(),
            s.is_some() ==> old(self).streams.valid(s.unwrap()),
        ensures
            final(self).wf(),
            final(self).core.registry_kept(&old(self).core),
            final(self).resumed == old(self).resumed,
            final(self).dropped(old(self), s, how, r),
    {
        match s {
            Some(s) => {
                let flags: StreamFlags = self.streams.slots[s.slot].flags;
                let closing: StreamFlags = how & flags;
                proof {
                    lemma_without(flags, how);
                    lemma_without(flags, closing);
                    assert(flags & closing == closing) by (bit_vector)
                        requires
                            closing == how & flags,
                    ;
                }
                self.streams.slots[s.slot].clear_flags(closing);
                self.streams.slots[s.slot].detach_closed();
                if self.streams.slots[s.slot].handles > 0 {
                    self.streams.slots[s.slot].handles = self.streams.slots[s.slot].handles - 1;
                }
                proof {
                    self.lemma_stream_changed(old(self), s);
                }
                self.send_close_packets(s, closing)
            },
            None => Ok(()),
        }
    }

    /// The state after one entry of a flow packet was taken in.
    pub open spec fn flow_taken(&self, earlier: &Runtime, code: Code, id: StreamId, increment: i32) -> bool {
        let before = earlier.streams.listed_state(code, id);
        let s = earlier.streams.listed_slot(code, id);
        let after = self.streams.state(s);
        let tasks = earlier.core.tasks;
        &&& self.core.tasks.kept(&earlier.core.tasks)
        &&& self.core.same_lists(&earlier.core)
        &&& self.core.shares == earlier.core.shares
        &&& self.core.free == earlier.core.free
        &&& self.recv_buf == earlier.recv_buf
        &&& self.resumed == earlier.resumed
        &&& earlier.flow_fault(code, id, increment).is_none()
        &&& self.only_stream_changed(earlier, s)
        &&& after.code == code && after.id == id
        &&& after.recv_err == before.recv_err
        &&& after.handles == before.handles
        &&& after.recv == before.recv
        &&& increment > 0 ==> after.writable == before.writable + increment
            && after.flags == before.flags && after.listed && after.writer.is_none()
            && after.write_err == before.write_err && after.closers == before.closers
            && self.core.tasks.state() == woken_option(
            tasks.state(),
            tasks.next_id(),
            before.writer,
        )
        &&& increment == 0 ==> after.writable == before.writable && after.flags
            == without(before.flags, STREAM_PEER_FLOW) && after.listed == (after.flags
            != 0) && after.writer.is_none() && after.write_err == before.write_err
            && after.closers@.len() == 0 && self.core.tasks.state() == woken_option(
            woken_back(tasks.state(), tasks.next_id(), before.closers@),
            tasks.next_id(),
            before.writer,
        )
        &&& increment < 0 ==> after.writable == before.writable && after.flags
            == before.flags && after.listed && after.writer == before.writer
            && after.write_err == increment && after.closers == before.closers
            && self.core.tasks == tasks
    }

    /// What `handle_flow` answers: the fault, if any.
    pub open spec fn flow_fault(&self, code: Code, id: StreamId, increment: i32) -> Option<Fault> {
        if !self.streams.has(code, id) {
            Some(Fault::UnknownStream)
        } else {
            let st = self.streams.listed_state(code, id);
            if increment > 0 && st.writable + increment > MAX_CREDIT {
                Some(Fault::CreditOutOfBounds)
            } else if increment == 0 && st.flags & STREAM_PEER_FLOW == 0 {
                Some(Fault::StreamAlreadyClosed)
            } else {
                None
            }
        }
    }

    /// Takes in one entry of a flow packet.  A positive increment adds to the
    /// stream's credit and wakes the writer.  Zero closes the peer's flow
    /// half.  A negative increment is kept as the stream's write error.
    pub fn handle_flow(&mut self, code: Code, id: StreamId, increment: i32) -> (r: Result<(), Fault>)
        requires
            old(self).wf(),
        ensures
            final(self).wf(),
            final(self).core.registry_kept(&old(self).core),
            final(self).resumed == old(self).resumed,
            final(self).recv_buf == old(self).recv_buf,
            final(self).core.same_lists(&old(self).core),
            final(self).core.shares == old(self).core.shares,
            final(self).core.free == old(self).core.free,
            match r {
                Err(e) => old(self).flow_fault(code, id, increment) == Some(e)
                    && final(self).streams
                    == old(self).streams && final(self).core == old(self).core,
                Ok(()) => final(self).flow_taken(old(self), code, id, increment),
            },
    {
        let s = match self.streams.find(code, id) {
            Some(s) => s,
            None => {
                return Err(Fault::UnknownStream);
            },
        };
        proof {
            old(self).streams.lemma_listed(code, id, s);
            assert(old(self).streams.state(s).wf());
        }
        if increment > 0 {
            if self.streams.slots[s.slot].writable + increment as usize > MAX_CREDIT {
                return Err(Fault::CreditOutOfBounds);
            }
            self.streams.slots[s.slot].writable = self.streams.slots[s.slot].writable
                + increment as usize;
            let w = self.streams.slots[s.slot].writer;
            self.streams.slots[s.slot].writer = None;
            self.core.wake(w);
        } else if increment == 0 {
            if self.streams.slots[s.slot].flags & STREAM_PEER_FLOW == 0 {
                return Err(Fault::StreamAlreadyClosed);
            }
            proof {
                let f = self.streams.slots@[s.slot as int].flags;
                assert(f & STREAM_PEER_FLOW != 0 ==> f & STREAM_PEER_FLOW == STREAM_PEER_FLOW)
                    by (bit_vector);
                assert(STREAM_PEER_FLOW & STREAM_PEER_DATA == 0) by (bit_vector);
                assert(STREAM_PEER_FLOW & STREAM_PEER_FLOW != 0) by (bit_vector);
            }
            peer_closed_stream(&mut self.streams.slots[s.slot], STREAM_PEER_FLOW, &mut self.core.tasks);
            self.streams.slots[s.slot].detach_closed();
            proof {
                self.core.lemma_tasks_changed(&old(self).core);
            }
        } else {
            self.streams.slots[s.slot].write_err = increment;
        }
        proof {
            self.lemma_stream_changed(old(self), s);
        }
        Ok(())
    }
}

impl Runtime {
    /// What `handle_data` answers: the fault, if any.
    pub open spec fn data_fault(&self, code: Code, id: StreamId, data_size: usize) -> Option<Fault> {
        if !self.streams.has(code, id) {
            Some(Fault::UnknownStream)
        } else if data_size == 0 && self.streams.listed_state(code, id).flags & STREAM_PEER_DATA
            == 0 {
            Some(Fault::StreamAlreadyClosed)
        } else {
            None
        }
    }

    /// The state after a data packet was taken in.  With data, the packet's
    /// offset is left for the reader, unless an earlier one is still there,
    /// and the reader is woken.  Without data, the note is kept and the peer's
    /// data half is closed.
    pub open spec fn data_taken(
        &self,
        earlier: &Runtime,
        code: Code,
        id: StreamId,
        data_size: usize,
        note: i32,
        offset: usize,
    ) -> bool {
        let before = earlier.streams.listed_state(code, id);
        let s = earlier.streams.listed_slot(code, id);
        let after = self.streams.state(s);
        let tasks = earlier.core.tasks;
        &&& self.core.tasks.kept(&earlier.core.tasks)
        &&& self.core.same_lists(&earlier.core)
        &&& self.core.shares == earlier.core.shares
        &&& self.core.free == earlier.core.free
        &&& self.recv_buf == earlier.recv_buf
        &&& self.resumed == earlier.resumed
        &&& earlier.data_fault(code, id, data_size).is_none()
        &&& self.only_stream_changed(earlier, s)
        &&& after.code == code && after.id == id
        &&& after.handles == before.handles
        &&& after.writable == before.writable
        &&& after.write_err == before.write_err
        &&& data_size > 0 ==> after.recv == Core::spec_deposit(before.recv, offset) && after.flags
            == before.flags && after.listed && after.writer == before.writer && after.recv_err
            == before.recv_err && after.closers == before.closers && self.core.tasks.state()
            == woken_option(tasks.state(), tasks.next_id(), reader_of(before.recv))
        &&& data_size == 0 ==> after.recv == (if reader_of(before.recv).is_some() {
            Recv::Empty
        } else {
            before.recv
        }) && after.flags == without(before.flags, STREAM_PEER_DATA) && after.listed == (after.flags
            != 0) && after.writer == before.writer && after.recv_err == note
            && after.closers@.len() == 0 && self.core.tasks.state() == woken_option(
            woken_back(tasks.state(), tasks.next_id(), before.closers@),
            tasks.next_id(),
            reader_of(before.recv),
        )
    }

    /// Takes in a data packet for stream `(code, id)`.  Says whether the
    /// packet stays in the receive buffer for the reader.
    pub fn handle_data(
        &mut self,
        code: Code,
        id: StreamId,
        data_size: usize,
        note: i32,
        offset: usize,
    ) -> (r: Result<bool, Fault>)
        requires
            old(self).wf(),
        ensures
            final(self).wf(),
            final(self).core.registry_kept(&old(self).core),
            final(self).resumed == old(self).resumed,
            final(self).recv_buf == old(self).recv_buf,
            final(self).core.same_lists(&old(self).core),
            final(self).core.shares == old(self).core.shares,
            final(self).core.free == old(self).core.free,
            match r {
                Err(e) => old(self).data_fault(code, id, data_size) == Some(e)
                    && final(self).streams
                    == old(self).streams && final(self).core == old(self).core,
                Ok(kept) => kept == (data_size > 0) && final(self).data_taken(
                    old(self),
                    code,
                    id,
                    data_size,
                    note,
                    offset,
                ),
            },
    {
        let s = match self.streams.find(code, id) {
            Some(s) => s,
            None => {
                return Err(Fault::UnknownStream);
            },
        };
        proof {
            old(self).streams.lemma_listed(code, id, s);
            assert(old(self).streams.state(s).wf());
        }
        let kept: bool = data_size > 0;
        if kept {
            let mut waker: Option<Waker> = None;
            match self.streams.slots[s.slot].recv.take() {
                Recv::Empty => {
                    self.streams.slots[s.slot].recv = Recv::Offset(offset);
                },
                Recv::Wake(w) => {
                    self.streams.slots[s.slot].recv = Recv::Offset(offset);
                    waker = Some(w);
                },
                Recv::Offset(earlier) => {
                    self.streams.slots[s.slot].recv = Recv::Offset(earlier);
                },
            }
            self.core.wake(waker);
        } else {
            if self.streams.slots[s.slot].flags & STREAM_PEER_DATA == 0 {
                return Err(Fault::StreamAlreadyClosed);
            }
            proof {
                let f = self.streams.slots@[s.slot as int].flags;
                assert(f & STREAM_PEER_DATA != 0 ==> f & STREAM_PEER_DATA == STREAM_PEER_DATA)
                    by (bit_vector);
                assert(STREAM_PEER_DATA & STREAM_PEER_FLOW == 0) by (bit_vector);
                assert(STREAM_PEER_DATA & STREAM_PEER_DATA != 0) by (bit_vector);
            }
            self.streams.slots[s.slot].recv_err = note;
            peer_closed_stream(&mut self.streams.slots[s.slot], STREAM_PEER_DATA, &mut self.core.tasks);
            self.streams.slots[s.slot].detach_closed();
            proof {
                self.core.lemma_tasks_changed(&old(self).core);
            }
        }
        proof {
            self.lemma_stream_changed(old(self), s);
        }
        Ok(kept)
    }
}

} // verus!
