//! The stream operations: writing within the peer's credit, receiving within
//! what was subscribed, and closing.

use crate::error::Fault;
use crate::future::Poll;
use crate::packet;
use crate::packet::{
    spec_code, spec_data_header, spec_flow_entry, spec_header, Code, StreamId,
    DATA_HEADER_SIZE, DOMAIN_FLOW, FLOW_SIZE, HEADER_SIZE,
};
use crate::process::Runtime;
use crate::runtime::Core;
use crate::send::SendLink;
use crate::streams::{
    Recv, Stream, StreamFlags, StreamState, MAX_CREDIT, STREAM_PEER_DATA, STREAM_PEER_FLOW,
};
use crate::task::Waker;
use vstd::prelude::*;

verus! {

/// The error code that a peer sent for a stream.  It is never zero.
#[derive(Clone, Copy, Debug, PartialEq, Eq, Structural)]
pub struct StreamErrorCode(pub i32);

impl Runtime {
    /// The state after only the state of stream `s` was replaced.
    pub open spec fn stream_set(&self, before: &Runtime, s: Stream, st: StreamState) -> bool {
        &&& self.core == before.core
        &&& self.recv_buf == before.recv_buf
        &&& self.resumed == before.resumed
        &&& self.streams.slots@ == before.streams.slots@.update(s.slot as int, st)
    }

    /// The table stays in order when a stream's state changes but for its
    /// key, its flags and its place in the table.
    pub proof fn lemma_stream_touched(&self, before: &Runtime, s: Stream)
        requires
            before.wf(),
            before.streams.valid(s),
            self.core.services@.len() == before.core.services@.len(),
            self.only_stream_changed(before, s),
            self.streams.state(s).wf(),
            self.streams.state(s).code == before.streams.state(s).code,
            self.streams.state(s).id == before.streams.state(s).id,
            self.streams.state(s).flags == before.streams.state(s).flags,
            self.streams.state(s).listed == before.streams.state(s).listed,
        ensures
            self.streams.wf(self.core.services@.len() as int),
    {
        self.lemma_stream_changed(before, s);
    }
}

/// Writes part of a byte string to a stream: as much as the peer's credit
/// allows.
pub struct StreamWriteFuture {
    pub s: Option<Stream>,
    pub data: Vec<u8>,
    pub note: i32,
    pub link: SendLink,
    pub writing: bool,
    /// The number of bytes that the packet on its way holds.
    pub len: usize,
}

/// A write as its fields, with what it has in hand as bytes.
pub struct StreamWriteView {
    pub s: Option<Stream>,
    pub data: Seq<u8>,
    pub note: i32,
    pub link: SendLink,
    pub writing: bool,
    pub len: usize,
}

impl View for StreamWriteFuture {
    type V = StreamWriteView;

    open spec fn view(&self) -> StreamWriteView {
        StreamWriteView {
            s: self.s,
            data: self.data@,
            note: self.note,
            link: self.link,
            writing: self.writing,
            len: self.len,
        }
    }
}

impl StreamWriteFuture {
    /// What the write has in hand fits a packet.
    pub open spec fn wf(&self) -> bool {
        DATA_HEADER_SIZE + self.data@.len() + 7 <= u32::MAX
    }

    pub fn new(s: Option<Stream>, data: &[u8], note: i32) -> (r: Self)
        requires
            DATA_HEADER_SIZE + data@.len() + 7 <= u32::MAX,
        ensures
            r.wf(),
            r.s == s,
            r.data@ == data@,
            r.note == note,
            !r.writing,
    {
        let mut d: Vec<u8> = Vec::new();
        d.extend_from_slice(data);
        StreamWriteFuture { s, data: d, note, link: SendLink::none(), writing: false, len: 0 }
    }

    /// The number of bytes that a write of `len` bytes sends with `credit`
    /// bytes of credit.
    pub open spec fn trimmed(credit: usize, len: nat) -> nat {
        if credit < len {
            credit as nat
        } else {
            len
        }
    }

    /// What a poll answers if it cannot go on.
    pub open spec fn poll_fault(&self, rt: &Runtime) -> Option<Fault> {
        if self.s.is_none() {
            None
        } else if self.writing {
            if !rt.core.live(self.link) {
                Some(Fault::DescriptorLost)
            } else {
                None
            }
        } else if !rt.streams.valid(self.s.unwrap()) {
            Some(Fault::UnknownStream)
        } else {
            let st = rt.streams.state(self.s.unwrap());
            if st.flags & STREAM_PEER_FLOW != 0 && st.writable > 0 && !rt.core.has_room() {
                Some(Fault::OutOfDescriptors)
            } else {
                None
            }
        }
    }

    /// What a poll does to a write that has no packet on its way.  On a
    /// stream whose peer has closed its flow half, the write is done: with
    /// the peer's error, if it sent one, else with nothing written.  Without
    /// credit, the write waits as the stream's writer.  With credit, it is
    /// trimmed to the credit, which shrinks by what remains, and a data
    /// packet with that much data is queued.
    pub open spec fn begun(
        &self,
        before: &StreamWriteFuture,
        rt: &Runtime,
        rt0: &Runtime,
        waker: Waker,
        r: Poll<Result<usize, StreamErrorCode>>,
    ) -> bool {
        let s = before.s.unwrap();
        let st = rt0.streams.state(s);
        let n = Self::trimmed(st.writable, before.data@.len());
        if st.flags & STREAM_PEER_FLOW == 0 {
            &&& *rt == *rt0
            &&& *self == *before
            &&& r == (if st.write_err == 0 {
                Poll::Ready(Ok::<usize, StreamErrorCode>(0))
            } else {
                Poll::Ready(Err::<usize, StreamErrorCode>(StreamErrorCode(st.write_err)))
            })
        } else if st.writable == 0 {
            &&& rt.stream_set(rt0, s, (StreamState { writer: Some(waker), ..st }))
            &&& *self == *before
            &&& r == Poll::<Result<usize, StreamErrorCode>>::Pending
        } else {
            &&& r == Poll::<Result<usize, StreamErrorCode>>::Pending
            &&& rt.recv_buf == rt0.recv_buf
            &&& rt.streams.slots@ == rt0.streams.slots@.update(
                s.slot as int,
                (StreamState { writable: (st.writable - n) as usize, ..st }),
            )
            &&& rt.core.started(
                &rt0.core,
                self.link,
                spec_data_header(DATA_HEADER_SIZE + n, st.code, st.id, before.note),
                before.data@.take(n as int),
                false,
                Some(waker),
            )
            &&& self.writing
            &&& self.len == n
            &&& self.s == before.s
            &&& self.note == before.note
            &&& self.data == before.data
        }
    }

    /// What a poll does to a write whose packet is on its way: once the
    /// packet was sent, the write is done with the number of bytes in it.
    pub open spec fn resumed(
        &self,
        before: &StreamWriteFuture,
        rt: &Runtime,
        rt0: &Runtime,
        waker: Waker,
        r: Poll<Result<usize, StreamErrorCode>>,
    ) -> bool {
        &&& rt.streams == rt0.streams
        &&& rt.recv_buf == rt0.recv_buf
        &&& self.s == before.s
        &&& self.note == before.note
        &&& self.len == before.len
        &&& self.data == before.data
        &&& if rt0.core.spec_finished(before.link) {
            &&& rt.core.released(&rt0.core, before.link)
            &&& !self.writing
            &&& r == Poll::Ready(Ok::<usize, StreamErrorCode>(before.len))
        } else {
            &&& rt.core.waiting(&rt0.core, before.link, waker)
            &&& self.writing
            &&& self.link == before.link
            &&& r == Poll::<Result<usize, StreamErrorCode>>::Pending
        }
    }

    /// What a poll does to a write.
    pub open spec fn polled(
        &self,
        before: &StreamWriteFuture,
        rt: &Runtime,
        rt0: &Runtime,
        waker: Waker,
        r: Result<Poll<Result<usize, StreamErrorCode>>, Fault>,
    ) -> bool {
        match r {
            Err(e) => before.poll_fault(rt0) == Some(e) && *rt == *rt0 && *self == *before,
            Ok(p) => {
                &&& before.poll_fault(rt0).is_none()
                &&& before.s.is_none() ==> p == Poll::Ready(Ok::<usize, StreamErrorCode>(0)) && *rt
                    == *rt0 && *self == *before
                &&& before.s.is_some() && !before.writing ==> self.begun(before, rt, rt0, waker, p)
                &&& before.s.is_some() && before.writing ==> self.resumed(before, rt, rt0, waker, p)
            },
        }
    }

    /// Polls the write.  A write on no stream is done at once, with nothing
    /// written.
    pub fn poll(&mut self, rt: &mut Runtime, waker: Waker) -> (r: Result<
        Poll<Result<usize, StreamErrorCode>>,
        Fault,
    >)
        requires
            old(self).wf(),
            old(rt).wf(),
        ensures
            final(self).wf(),
            final(rt).wf(),
            final(rt).core.registry_kept(&old(rt).core),
            final(rt).resumed == old(rt).resumed,
            final(self).polled(old(self), final(rt), old(rt), waker, r),
    {
        let s = match self.s {
            Some(s) => s,
            None => {
                return Ok(Poll::Ready(Ok(0)));
            },
        };
        if self.writing {
            match rt.core.poll_sent(self.link, waker) {
                Ok(true) => {
                    self.writing = false;
                    Ok(Poll::Ready(Ok(self.len)))
                },
                Ok(false) => Ok(Poll::Pending),
                Err(e) => Err(e),
            }
        } else {
            if s.slot >= rt.streams.slots.len() {
                return Err(Fault::UnknownStream);
            }
            assert(rt.streams.slots@[s.slot as int].wf());
            if rt.streams.slots[s.slot].flags & STREAM_PEER_FLOW == 0 {
                let e: i32 = rt.streams.slots[s.slot].write_err;
                if e == 0 {
                    return Ok(Poll::Ready(Ok(0)));
                } else {
                    return Ok(Poll::Ready(Err(StreamErrorCode(e))));
                }
            }
            let credit: usize = rt.streams.slots[s.slot].writable;
            if credit == 0 {
                rt.streams.slots[s.slot].writer = Some(waker);
                proof {
                    rt.lemma_stream_touched(old(rt), s);
                }
                return Ok(Poll::Pending);
            }
            if !rt.core.room() {
                return Err(Fault::OutOfDescriptors);
            }
            let n: usize = if credit < self.data.len() {
                credit
            } else {
                self.data.len()
            };
            let code: Code = rt.streams.slots[s.slot].code;
            let id: StreamId = rt.streams.slots[s.slot].id;
            rt.streams.slots[s.slot].writable = credit - n;
            let mut header: Vec<u8> = Vec::new();
            header.resize(DATA_HEADER_SIZE, 0u8);
            packet::data_header_into(header.as_mut_slice(), DATA_HEADER_SIZE
                + n, code, id, self.note);
            let mut content: Vec<u8> = Vec::new();
            content.extend_from_slice(&self.data[0..n]);
            proof {
                assert(header@ =~= spec_data_header(DATA_HEADER_SIZE + n, code, id, self.note));
                assert(content@ =~= self.data@.take(n as int));
                packet::lemma_data_header_round_trip(
                    (DATA_HEADER_SIZE + n) as u32,
                    code,
                    id,
                    self.note,
                );
                rt.lemma_stream_touched(old(rt), s);
            }
            match rt.core.start(header, content, false, Some(waker)) {
                Ok(link) => {
                    self.link = link;
                    self.writing = true;
                    self.len = n;
                    Ok(Poll::Pending)
                },
                Err(e) => Err(e),
            }
        }
    }
}

/// Why a write of a whole byte string ended early.
#[derive(Clone, Copy, Debug, PartialEq, Eq, Structural)]
pub enum WriteAllError {
    /// The stream was closed before everything was written.
    WriteZero,
    /// The peer sent an error code.
    Stream(StreamErrorCode),
}

/// Writes a whole byte string to a stream, in as many packets as the peer's
/// credit makes necessary.
pub struct StreamWriteAllFuture {
    pub inner: StreamWriteFuture,
    /// What is not written yet.  It is also what the write in progress has in
    /// hand.
    pub pending: Vec<u8>,
}

impl StreamWriteAllFuture {
    pub open spec fn wf(&self) -> bool {
        &&& self.inner.wf()
        &&& self.inner.data@ == self.pending@
        &&& self.inner.writing ==> self.inner.len <= self.pending@.len() && self.inner.s.is_some()
    }

    pub fn new(s: Option<Stream>, data: &[u8]) -> (r: Self)
        requires
            DATA_HEADER_SIZE + data@.len() + 7 <= u32::MAX,
        ensures
            r.wf(),
            r.inner.s == s,
            r.pending@ == data@,
            r.inner.note == 0,
            !r.inner.writing,
    {
        let mut pending: Vec<u8> = Vec::new();
        pending.extend_from_slice(data);
        assert(pending@ =~= data@);
        let inner = StreamWriteFuture::new(s, data, 0);
        StreamWriteAllFuture { inner, pending }
    }

    /// The operation's answer for what a write answered.
    pub open spec fn answer(inner: Result<Poll<Result<usize, StreamErrorCode>>, Fault>) -> Result<
        Poll<Result<(), WriteAllError>>,
        Fault,
    > {
        match inner {
            Err(e) => Err(e),
            Ok(Poll::Pending) => Ok(Poll::Pending),
            Ok(Poll::Ready(Err(code))) => Ok(Poll::Ready(Err(WriteAllError::Stream(code)))),
            Ok(Poll::Ready(Ok(_))) => Ok(Poll::Ready(Err(WriteAllError::WriteZero))),
        }
    }

    /// What follows the first write of a poll, which left the write `mid`
    /// and the state `rt_mid` and answered `first`.  Bytes that a packet took
    /// with it leave the pending ones: if none is left the operation is
    /// done, and if not the next write begins at once.  Any other answer of
    /// the write ends the poll: nothing written means that the stream is
    /// closed.
    pub open spec fn continued(
        &self,
        before: &StreamWriteAllFuture,
        mid: &StreamWriteFuture,
        rt: &Runtime,
        rt_mid: &Runtime,
        waker: Waker,
        first: Result<Poll<Result<usize, StreamErrorCode>>, Fault>,
        r: Result<Poll<Result<(), WriteAllError>>, Fault>,
    ) -> bool {
        match first {
            Ok(Poll::Ready(Ok(n))) if n > 0 => {
                let next = StreamWriteFuture { data: self.pending, ..*mid };
                &&& n <= before.pending@.len()
                &&& self.pending@ == before.pending@.skip(n as int)
                &&& if self.pending@.len() == 0 {
                    r == Ok::<Poll<Result<(), WriteAllError>>, Fault>(Poll::Ready(Ok(())))
                        && self.inner@ == next@ && *rt == *rt_mid
                } else {
                    exists|second: Result<Poll<Result<usize, StreamErrorCode>>, Fault>|
                        #![trigger Self::answer(second)]
                        r == Self::answer(second) && exists|start: StreamWriteFuture| #[trigger]
                            self.inner.polled(&start, rt, rt_mid, waker, second) && start@ == next@
                }
            },
            _ => r == Self::answer(first) && self.inner == *mid && self.pending == before.pending
                && *rt == *rt_mid,
        }
    }

    /// Polls the write.  When a packet was sent, what it held leaves the
    /// pending bytes: if none is left the write is done, and if not the next
    /// write begins at once.  A write that sends nothing because the stream
    /// is closed ends the operation with `WriteZero`, and an error code of
    /// the peer ends it with that code.
    pub fn poll(&mut self, rt: &mut Runtime, waker: Waker) -> (r: Result<
        Poll<Result<(), WriteAllError>>,
        Fault,
    >)
        requires
            old(self).wf(),
            old(rt).wf(),
        ensures
            final(self).wf(),
            final(rt).wf(),
            final(rt).core.registry_kept(&old(rt).core),
            final(rt).resumed == old(rt).resumed,
            final(self).inner.s == old(self).inner.s,
            exists|
                mid: StreamWriteFuture,
                rt_mid: Runtime,
                first: Result<Poll<Result<usize, StreamErrorCode>>, Fault>,
            | #[trigger]
                mid.polled(&old(self).inner, &rt_mid, old(rt), waker, first)
                    && final(self).continued(old(self), &mid, final(rt), &rt_mid, waker, first, r),
    {
        let first = self.inner.poll(rt, waker);
        let ghost mid = self.inner;
        let ghost rt_mid = *rt;
        proof {
            assert(mid.polled(&old(self).inner, &rt_mid, old(rt), waker, first));
        }
        let n: usize = match first {
            Err(e) => {
                return Err(e);
            },
            Ok(Poll::Pending) => {
                return Ok(Poll::Pending);
            },
            Ok(Poll::Ready(Err(code))) => {
                return Ok(Poll::Ready(Err(WriteAllError::Stream(code))));
            },
            Ok(Poll::Ready(Ok(n))) => n,
        };
        if n == 0 {
            return Ok(Poll::Ready(Err(WriteAllError::WriteZero)));
        }
        let len: usize = self.pending.len();
        let mut rest: Vec<u8> = Vec::new();
        rest.extend_from_slice(&self.pending[n..len]);
        let mut copy: Vec<u8> = Vec::new();
        copy.extend_from_slice(&self.pending[n..len]);
        proof {
            assert(rest@ =~= self.pending@.skip(n as int));
            assert(copy@ =~= rest@);
        }
        self.pending = rest;
        self.inner.data = copy;
        let ghost start = self.inner;
        if self.pending.len() == 0 {
            return Ok(Poll::Ready(Ok(())));
        }
        let second = self.inner.poll(rt, waker);
        let r = match second {
            Err(e) => Err(e),
            Ok(Poll::Pending) => Ok(Poll::Pending),
            Ok(Poll::Ready(Err(code))) => Ok(Poll::Ready(Err(WriteAllError::Stream(code)))),
            Ok(Poll::Ready(Ok(_))) => Ok(Poll::Ready(Err(WriteAllError::WriteZero))),
        };
        proof {
            let next = StreamWriteFuture { data: self.pending, ..mid };
            assert(start@ == next@);
            assert(self.inner.polled(&start, rt, &rt_mid, waker, second));
            assert(r == Self::answer(second));
            assert(self.continued(old(self), &mid, rt, &rt_mid, waker, first, r));
        }
        r
    }
}

/// What a poll of a receive operation found.
#[derive(Debug)]
pub enum RecvEvent<'a> {
    /// Nothing yet: the operation's task is woken when something comes.
    Pending,
    /// A data packet: its data and its note.  The receptor says how many more
    /// bytes it takes, and `accept` is called with that before the next poll.
    Data(&'a [u8], i32),
    /// The peer has closed its data half, with this note.
    Closed(i32),
    /// The stream is open, but nothing is subscribed any more.
    Drained,
}

/// The flow packet that grants the peer `increment` more bytes on a stream.
pub open spec fn spec_flow_packet(code: Code, id: StreamId, increment: i32) -> Seq<u8> {
    spec_header(HEADER_SIZE + FLOW_SIZE, code, DOMAIN_FLOW) + spec_flow_entry(id, increment)
}

/// Receives data from a stream, within what it has subscribed.
pub struct StreamRecvFuture {
    pub s: Option<Stream>,
    /// Asked for by the receptor, but not granted to the peer yet.
    pub unsubscribed: u64,
    /// Granted to the peer, but not received yet.
    pub unreceived: i32,
    pub flow_link: SendLink,
    pub flow_started: bool,
    /// All that was granted to the peer.
    pub advertised: Ghost<nat>,
    /// All that was received.
    pub received: Ghost<nat>,
}

impl StreamRecvFuture {
    /// Nothing was received that was not granted: what was granted is what
    /// was received and what is still to come.
    pub open spec fn wf(&self) -> bool {
        &&& self.unreceived >= 0
        &&& self.received@ + self.unreceived == self.advertised@
    }

    pub fn new(s: Option<Stream>, cap: usize) -> (r: Self)
        ensures
            r.wf(),
            r.s == s,
            r.unsubscribed == cap,
            r.unreceived == 0,
            !r.flow_started,
            r.advertised@ == 0,
            r.received@ == 0,
    {
        StreamRecvFuture {
            s,
            unsubscribed: cap as u64,
            unreceived: 0,
            flow_link: SendLink::none(),
            flow_started: false,
            advertised: Ghost(0),
            received: Ghost(0),
        }
    }

    /// What the next flow packet grants: all that is asked for, as far as
    /// the window has room for it.
    pub open spec fn spec_flow_increment(&self) -> int {
        if self.unsubscribed <= MAX_CREDIT - self.unreceived {
            self.unsubscribed as int
        } else {
            MAX_CREDIT - self.unreceived
        }
    }

    pub fn flow_increment(&self) -> (r: i32)
        requires
            self.wf(),
        ensures
            r == self.spec_flow_increment(),
            r >= 0,
    {
        let max_flow: i32 = i32::MAX - self.unreceived;
        if self.unsubscribed <= max_flow as u64 {
            self.unsubscribed as i32
        } else {
            max_flow
        }
    }

    /// Whether a flow packet is due: something can be granted, and the flow
    /// packet before this one was sent.
    pub open spec fn spec_can_send(&self, core: &Core) -> bool {
        self.spec_flow_increment() > 0 && (!self.flow_started || core.spec_finished(self.flow_link))
    }

    pub fn can_send_flow_packet(&self, core: &Core) -> (r: bool)
        requires
            self.wf(),
            core.wf(),
            self.flow_started ==> core.live(self.flow_link),
        ensures
            r == self.spec_can_send(core),
    {
        self.flow_increment() > 0 && (!self.flow_started || core.finished(self.flow_link))
    }

    /// The operation after a flow packet was sent: what it granted is no
    /// longer asked for, and is to come.
    pub open spec fn granted(&self, before: &StreamRecvFuture) -> bool {
        let inc = before.spec_flow_increment();
        &&& self.s == before.s
        &&& self.unsubscribed == before.unsubscribed - inc
        &&& self.unreceived == before.unreceived + inc
        &&& self.advertised@ == before.advertised@ + inc
        &&& self.received@ == before.received@
        &&& self.flow_started
    }

    /// The state after a flow packet for stream `(code, id)` was queued, in
    /// the slot of the one before it if there was one.
    pub open spec fn flow_sent(
        &self,
        before: &StreamRecvFuture,
        core: &Core,
        core0: &Core,
        code: Code,
        id: StreamId,
    ) -> bool {
        let packet = spec_flow_packet(code, id, before.spec_flow_increment() as i32);
        if before.flow_started {
            exists|mid: Core| #[trigger]
                mid.released(core0, before.flow_link) && core.started(
                    &mid,
                    self.flow_link,
                    packet,
                    Seq::<u8>::empty(),
                    false,
                    None,
                )
        } else {
            core.started(core0, self.flow_link, packet, Seq::<u8>::empty(), false, None)
        }
    }

    /// Grants the peer what the next flow packet can grant.
    pub fn send_flow_packet(&mut self, core: &mut Core, code: Code, id: StreamId) -> (r: Result<
        (),
        Fault,
    >)
        requires
            old(self).wf(),
            old(core).wf(),
            code < old(core).services@.len(),
            old(self).flow_started ==> old(core).live(old(self).flow_link),
            old(self).spec_can_send(old(core)),
        ensures
            final(self).wf(),
            final(core).wf(),
            final(core).registry_kept(old(core)),
            final(core).services@.len() == old(core).services@.len(),
            !old(self).flow_started && !old(core).has_room() ==> r.is_err(),
            match r {
                Ok(()) => final(self).granted(old(self)) && final(self).flow_sent(
                    old(self),
                    final(core),
                    old(core),
                    code,
                    id,
                ) && final(core).live(final(self).flow_link),
                Err(e) => e == Fault::OutOfDescriptors && !old(self).flow_started
                    && !old(core).has_room() && *final(self) == *old(self)
                    && *final(core) == *old(core),
            },
    {
        if !self.flow_started && !core.room() {
            return Err(Fault::OutOfDescriptors);
        }
        let increment: i32 = self.flow_increment();
        let mut p: Vec<u8> = Vec::new();
        p.resize(HEADER_SIZE + FLOW_SIZE, 0u8);
        packet::header_into(p.as_mut_slice(), HEADER_SIZE + FLOW_SIZE, code, DOMAIN_FLOW);
        packet::flow_into(p.as_mut_slice(), 0, id, increment);
        proof {
            assert(p@ =~= spec_flow_packet(code, id, increment));
            packet::lemma_header_round_trip((HEADER_SIZE + FLOW_SIZE) as u32, code, DOMAIN_FLOW);
            assert(spec_code(p@) == code);
        }
        if self.flow_started {
            core.release(self.flow_link);
        }
        let ghost mid = *core;
        let empty: Vec<u8> = Vec::new();
        assert(empty@ =~= Seq::<u8>::empty());
        match core.start(p, empty, false, None) {
            Ok(link) => {
                self.unsubscribed = self.unsubscribed - increment as u64;
                self.unreceived = self.unreceived + increment;
                proof {
                    self.advertised@ = self.advertised@ + increment as nat;
                }
                self.flow_link = link;
                self.flow_started = true;
                proof {
                    if old(self).flow_started {
                        assert(mid.released(old(core), old(self).flow_link));
                    }
                }
                Ok(())
            },
            // A slot is there: the table can grow, or one was given back.
            Err(_) => vstd::pervasive::unreached(),
        }
    }
}

impl StreamRecvFuture {
    /// The state after the flow packet that was due, if one was, has been
    /// sent.
    pub open spec fn subscribed(
        &self,
        before: &StreamRecvFuture,
        rt: &Runtime,
        rt0: &Runtime,
    ) -> bool {
        let st = rt0.streams.state(before.s.unwrap());
        &&& rt.streams == rt0.streams
        &&& rt.recv_buf == rt0.recv_buf
        &&& if before.spec_can_send(&rt0.core) {
            self.granted(before) && self.flow_sent(before, &rt.core, &rt0.core, st.code, st.id)
        } else {
            *self == *before && rt.core == rt0.core
        }
    }

    /// What `subscribe` answers if it cannot go on.
    pub open spec fn subscribe_fault(&self, rt: &Runtime) -> Option<Fault> {
        if !rt.streams.valid(self.s.unwrap()) {
            Some(Fault::UnknownStream)
        } else if self.flow_started && !rt.core.live(self.flow_link) {
            Some(Fault::DescriptorLost)
        } else if self.spec_can_send(&rt.core) && !self.flow_started && !rt.core.has_room() {
            Some(Fault::OutOfDescriptors)
        } else {
            None
        }
    }

    /// Sends a flow packet if one is due: if something is asked for that the
    /// window has room for, and the flow packet before this one was sent.
    pub fn subscribe(&mut self, rt: &mut Runtime) -> (r: Result<(), Fault>)
        requires
            old(self).wf(),
            old(rt).wf(),
            old(self).s.is_some(),
        ensures
            final(self).wf(),
            final(rt).wf(),
            final(rt).core.registry_kept(&old(rt).core),
            final(rt).resumed == old(rt).resumed,
            final(self).s == old(self).s,
            match r {
                Ok(()) => old(self).subscribe_fault(old(rt)).is_none() && final(self).subscribed(
                    old(self),
                    final(rt),
                    old(rt),
                ) && final(rt).streams.valid(final(self).s.unwrap()),
                Err(e) => old(self).subscribe_fault(old(rt)) == Some(e)
                    && *final(self) == *old(self) && *final(rt) == *old(rt),
            },
    {
        let s = self.s.unwrap();
        if s.slot >= rt.streams.slots.len() {
            return Err(Fault::UnknownStream);
        }
        if self.flow_started && !rt.core.is_live(self.flow_link) {
            return Err(Fault::DescriptorLost);
        }
        if self.can_send_flow_packet(&rt.core) {
            let code: Code = rt.streams.slots[s.slot].code;
            let id: StreamId = rt.streams.slots[s.slot].id;
            assert(rt.streams.slots@[s.slot as int].wf());
            match self.send_flow_packet(&mut rt.core, code, id) {
                Ok(()) => {},
                Err(e) => {
                    return Err(e);
                },
            }
        }
        Ok(())
    }

    /// The operation after the receptor accepted `more` bytes, before the
    /// flow packet that may be due.
    pub open spec fn accepting(&self, more: usize) -> StreamRecvFuture {
        StreamRecvFuture { unsubscribed: (self.unsubscribed + more) as u64, ..*self }
    }

    /// Takes what the receptor said it accepts after it was given data: that
    /// many bytes more are asked for, and a flow packet is sent if one is
    /// due.
    pub fn accept(&mut self, rt: &mut Runtime, more: usize) -> (r: Result<(), Fault>)
        requires
            old(self).wf(),
            old(rt).wf(),
            old(self).s.is_some(),
        ensures
            final(self).wf(),
            final(rt).wf(),
            final(rt).core.registry_kept(&old(rt).core),
            final(rt).resumed == old(rt).resumed,
            final(self).s == old(self).s,
            old(self).unsubscribed + more > u64::MAX ==> r == Err::<(), Fault>(
                Fault::CapacityOutOfBounds,
            ) && *final(self) == *old(self) && *final(rt) == *old(rt),
            old(self).unsubscribed + more <= u64::MAX ==> match r {
                Ok(()) => old(self).accepting(more).subscribe_fault(old(rt)).is_none()
                    && final(self).subscribed(&old(self).accepting(more), final(rt), old(rt)),
                Err(e) => old(self).accepting(more).subscribe_fault(old(rt)) == Some(e)
                    && *final(self) == old(self).accepting(more) && *final(rt) == *old(rt),
            },
    {
        match self.unsubscribed.checked_add(more as u64) {
            Some(n) => {
                self.unsubscribed = n;
            },
            None => {
                return Err(Fault::CapacityOutOfBounds);
            },
        }
        self.subscribe(rt)
    }
}

impl StreamRecvFuture {
    /// What `poll` answers, behind the flow packet that may have been due,
    /// if it cannot hand out the data packet that waits for it.
    pub open spec fn data_fault(&self, rt: &Runtime) -> Option<Fault> {
        match rt.streams.state(self.s.unwrap()).recv {
            Recv::Offset(off) => {
                let p = rt.recv_buf.packet_at(off as int);
                if rt.recv_buf.consume_fault(off).is_some() {
                    rt.recv_buf.consume_fault(off)
                } else if p.len() < DATA_HEADER_SIZE {
                    Some(Fault::PacketSizeOutOfBounds)
                } else if p.len() - DATA_HEADER_SIZE > self.unreceived {
                    Some(Fault::DataExceedsSubscription)
                } else {
                    None
                }
            },
            _ => None,
        }
    }

    /// What a poll does behind the flow packet that may have been due.  A
    /// data packet that waits is released from the receive buffer and handed
    /// out, and its size is no longer to come.  Without one, the operation is
    /// done if the peer has closed its data half, or if nothing is asked for
    /// and nothing is to come; it then gives up its flow descriptor.  If
    /// neither holds, it waits as the stream's reader.
    pub open spec fn delivered(
        &self,
        before: &StreamRecvFuture,
        rt: &Runtime,
        rt0: &Runtime,
        waker: Waker,
        r: RecvEvent<'_>,
    ) -> bool {
        let s = before.s.unwrap();
        let st = rt0.streams.state(s);
        match st.recv {
            Recv::Offset(off) => {
                let p = rt0.recv_buf.packet_at(off as int);
                let len = p.len() - DATA_HEADER_SIZE;
                &&& match r {
                    RecvEvent::Data(data, note) => data@ == p.skip(DATA_HEADER_SIZE as int) && note
                        == packet::spec_data_note(p),
                    _ => false,
                }
                &&& rt.core == rt0.core
                &&& rt.streams.slots@ == rt0.streams.slots@.update(
                    s.slot as int,
                    (StreamState { recv: Recv::Empty, ..st }),
                )
                &&& crate::dispatch::released(&rt.recv_buf, &rt0.recv_buf)
                &&& self.s == before.s
                &&& self.unsubscribed == before.unsubscribed
                &&& self.unreceived == before.unreceived - len
                &&& self.received@ == before.received@ + len
                &&& self.advertised@ == before.advertised@
                &&& self.flow_link == before.flow_link
                &&& self.flow_started == before.flow_started
            },
            _ => {
                let done = st.flags & STREAM_PEER_DATA == 0 || (before.unsubscribed == 0
                    && before.unreceived == 0);
                &&& rt.recv_buf == rt0.recv_buf
                &&& self.s == before.s
                &&& self.unsubscribed == before.unsubscribed
                &&& self.unreceived == before.unreceived
                &&& self.received@ == before.received@
                &&& self.advertised@ == before.advertised@
                &&& self.flow_link == before.flow_link
                &&& if done {
                    &&& match r {
                        RecvEvent::Closed(note) => st.flags & STREAM_PEER_DATA == 0 && note
                            == st.recv_err,
                        RecvEvent::Drained => st.flags & STREAM_PEER_DATA != 0,
                        _ => false,
                    }
                    &&& rt.streams == rt0.streams
                    &&& !self.flow_started
                    &&& if before.flow_started {
                        rt.core.abandoned(&rt0.core, before.flow_link)
                    } else {
                        rt.core == rt0.core
                    }
                } else {
                    &&& r is Pending
                    &&& rt.core == rt0.core
                    &&& rt.streams.slots@ == rt0.streams.slots@.update(
                        s.slot as int,
                        (StreamState { recv: Recv::Wake(waker), ..st }),
                    )
                    &&& self.flow_started == before.flow_started
                }
            },
        }
    }

    /// The state `mid` lies between the two steps of `poll`: behind the flow
    /// packet that may have been due, and before what is done about data.
    pub open spec fn prepared(
        before: &StreamRecvFuture,
        mid: &StreamRecvFuture,
        rt_mid: &Runtime,
        rt0: &Runtime,
    ) -> bool {
        &&& mid.wf()
        &&& rt_mid.wf()
        &&& mid.s == before.s
        &&& mid.subscribed(before, rt_mid, rt0)
    }

    /// What the second step of `poll` does, from the state `mid`.
    pub open spec fn outcome(
        &self,
        mid: &StreamRecvFuture,
        rt: &Runtime,
        rt_mid: &Runtime,
        waker: Waker,
        r: Result<RecvEvent<'_>, Fault>,
    ) -> bool {
        match r {
            Ok(event) => mid.data_fault(rt_mid).is_none() && self.delivered(
                mid,
                rt,
                rt_mid,
                waker,
                event,
            ),
            Err(e) => mid.data_fault(rt_mid) == Some(e),
        }
    }

    /// Polls the operation.  On no stream it is done at once: closed, with
    /// the note zero.
    pub fn poll<'a>(&mut self, rt: &'a mut Runtime, waker: Waker) -> (r: Result<
        RecvEvent<'a>,
        Fault,
    >)
        requires
            old(self).wf(),
            old(rt).wf(),
        ensures
            final(self).wf(),
            final(rt).wf(),
            final(rt).core.registry_kept(&old(rt).core),
            final(rt).resumed == old(rt).resumed,
            old(self).s.is_none() ==> (match r {
                Ok(RecvEvent::Closed(note)) => note == 0,
                _ => false,
            }) && *final(self) == *old(self) && *final(rt) == *old(rt),
            old(self).s.is_some() && old(self).subscribe_fault(old(rt)).is_some() ==> (match r {
                Err(e) => old(self).subscribe_fault(old(rt)) == Some(e),
                _ => false,
            }) && *final(self) == *old(self) && *final(rt) == *old(rt),
            old(self).s.is_some() && old(self).subscribe_fault(old(rt)).is_none() ==> exists|
                mid: StreamRecvFuture,
                rt_mid: Runtime,
            | #[trigger]
                Self::prepared(old(self), &mid, &rt_mid, old(rt)) && final(self).outcome(
                    &mid,
                    final(rt),
                    &rt_mid,
                    waker,
                    r,
                ),
    {
        let s = match self.s {
            Some(s) => s,
            None => {
                return Ok(RecvEvent::Closed(0));
            },
        };
        match self.subscribe(rt) {
            Ok(()) => {},
            Err(e) => {
                return Err(e);
            },
        }
        let ghost mid = *self;
        let ghost rt_mid = *rt;
        assert(rt.streams.slots@[s.slot as int].wf());
        assert(Self::prepared(old(self), &mid, &rt_mid, old(rt)));
        match rt.streams.slots[s.slot].recv {
            Recv::Offset(off) => {
                rt.streams.slots[s.slot].recv = Recv::Empty;
                proof {
                    rt.lemma_stream_touched(&rt_mid, s);
                    assert(rt.streams.slots@ =~= rt_mid.streams.slots@.update(
                        s.slot as int,
                        (StreamState { recv: Recv::Empty, ..rt_mid.streams.state(s) }),
                    ));
                }
                let p = match rt.recv_buf.consume(off) {
                    Ok(p) => p,
                    Err(e) => {
                        return Err(e);
                    },
                };
                let len: usize = p.len();
                if len < DATA_HEADER_SIZE {
                    return Err(Fault::PacketSizeOutOfBounds);
                }
                let data_len: usize = len - DATA_HEADER_SIZE;
                if data_len > self.unreceived as usize {
                    return Err(Fault::DataExceedsSubscription);
                }
                self.unreceived = self.unreceived - data_len as i32;
                proof {
                    self.received@ = self.received@ + data_len as nat;
                }
                let note: i32 = packet::data_note(p);
                let data = &p[DATA_HEADER_SIZE..len];
                proof {
                    assert(data@ =~= p@.skip(DATA_HEADER_SIZE as int));
                }
                Ok(RecvEvent::Data(data, note))
            },
            _ => {
                let closed: bool = rt.streams.slots[s.slot].flags & STREAM_PEER_DATA == 0;
                if closed || (self.unsubscribed == 0 && self.unreceived == 0) {
                    if self.flow_started {
                        rt.core.abandon(self.flow_link);
                        self.flow_started = false;
                    }
                    if closed {
                        Ok(RecvEvent::Closed(rt.streams.slots[s.slot].recv_err))
                    } else {
                        Ok(RecvEvent::Drained)
                    }
                } else {
                    rt.streams.slots[s.slot].recv = Recv::Wake(waker);
                    proof {
                        rt.lemma_stream_touched(&rt_mid, s);
                        assert(rt.streams.slots@ =~= rt_mid.streams.slots@.update(
                            s.slot as int,
                            (StreamState { recv: Recv::Wake(waker), ..rt_mid.streams.state(s) }),
                        ));
                    }
                    Ok(RecvEvent::Pending)
                }
            },
        }
    }
}

/// Closes halves of a stream and waits until the peer has closed its own.
pub struct StreamCloseFuture {
    pub s: Option<Stream>,
    /// The halves of this side that the first poll closes.
    pub how: StreamFlags,
    /// The halves of the peer to wait for.
    pub wait: StreamFlags,
}

impl StreamCloseFuture {
    pub fn new(s: Option<Stream>, how: StreamFlags, wait: StreamFlags) -> (r: Self)
        ensures
            r.s == s,
            r.how == how,
            r.wait == wait,
    {
        StreamCloseFuture { s, how, wait }
    }

    /// What a poll answers if it cannot go on.
    pub open spec fn poll_fault(&self, rt: &Runtime) -> Option<Fault> {
        if self.s.is_some() && !rt.streams.valid(self.s.unwrap()) {
            Some(Fault::UnknownStream)
        } else {
            None
        }
    }

    /// What a poll does to the stream.  The first poll clears those of the
    /// flags to close that are still set, and the peer is told.  While a flag
    /// to wait for is set, the operation waits among the stream's closers.
    /// When none is set, the operation is done: it gives up its handle, and
    /// the stream leaves the table if no flag is left.
    pub open spec fn closed(
        &self,
        before: &StreamCloseFuture,
        rt: &Runtime,
        rt0: &Runtime,
        waker: Waker,
        r: Poll<()>,
    ) -> bool {
        let s = before.s.unwrap();
        let st = rt0.streams.state(s);
        let closing = before.how & st.flags;
        let flags = crate::streams::without(st.flags, closing);
        let after = rt.streams.state(s);
        &&& rt.recv_buf == rt0.recv_buf
        &&& rt.close_sent(&rt0.core, st.code, st.id, closing)
        &&& rt.only_stream_changed(rt0, s)
        &&& after.flags == flags
        &&& after.code == st.code
        &&& after.id == st.id
        &&& after.recv == st.recv
        &&& after.recv_err == st.recv_err
        &&& after.writable == st.writable
        &&& after.writer == st.writer
        &&& after.write_err == st.write_err
        &&& self.how == 0
        &&& self.wait == before.wait
        &&& if flags & before.wait != 0 {
            &&& r is Pending
            &&& after.closers@ == st.closers@.push(waker)
            &&& after.listed == st.listed
            &&& after.handles == st.handles
            &&& self.s == before.s
        } else {
            &&& r is Ready
            &&& after.closers == st.closers
            &&& after.listed == (st.listed && flags != 0)
            &&& after.handles == (if st.handles > 0 {
                (st.handles - 1) as usize
            } else {
                0
            })
            &&& self.s.is_none()
        }
    }

    /// Polls the operation.  On no stream it is done at once.
    pub fn poll(&mut self, rt: &mut Runtime, waker: Waker) -> (r: Result<Poll<()>, Fault>)
        requires
            old(rt).wf(),
        ensures
            final(rt).wf(),
            final(rt).core.registry_kept(&old(rt).core),
            final(rt).resumed == old(rt).resumed,
            match r {
                Err(e) => (old(self).poll_fault(old(rt)) == Some(e) && *final(rt) == *old(rt)
                    || e == Fault::OutOfDescriptors && old(rt).core.shares@.len() >= usize::MAX
                    - 3) && *final(self) == *old(self) && final(rt).streams == old(rt).streams,
                Ok(p) => {
                    &&& old(self).poll_fault(old(rt)).is_none()
                    &&& old(self).s.is_none() ==> p is Ready && *final(rt) == *old(rt)
                        && final(self).s.is_none()
                    &&& old(self).s.is_some() ==> final(self).closed(
                        old(self),
                        final(rt),
                        old(rt),
                        waker,
                        p,
                    )
                },
            },
    {
        let s = match self.s {
            Some(s) => s,
            None => {
                return Ok(Poll::Ready(()));
            },
        };
        if s.slot >= rt.streams.slots.len() {
            return Err(Fault::UnknownStream);
        }
        assert(rt.streams.slots@[s.slot as int].wf());
        let flags: StreamFlags = rt.streams.slots[s.slot].flags;
        let how: StreamFlags = self.how;
        let closing: StreamFlags = how & flags;
        proof {
            crate::streams::lemma_without(flags, closing);
            assert(flags & closing == closing) by (bit_vector)
                requires
                    closing == how & flags,
            ;
        }
        match rt.send_close_packets(s, closing) {
            Ok(()) => {},
            Err(e) => {
                return Err(e);
            },
        }
        let ghost mid = *rt;
        self.how = 0;
        rt.streams.slots[s.slot].clear_flags(closing);
        if rt.streams.slots[s.slot].flags & self.wait != 0 {
            rt.streams.slots[s.slot].closers.push(waker);
            proof {
                crate::streams::lemma_without(flags, closing);
                let f = rt.streams.slots@[s.slot as int].flags;
                let w = self.wait;
                assert(f & w != 0 ==> f != 0) by (bit_vector);
                rt.lemma_stream_changed(&mid, s);
            }
            return Ok(Poll::Pending);
        }
        rt.streams.slots[s.slot].detach_closed();
        if rt.streams.slots[s.slot].handles > 0 {
            rt.streams.slots[s.slot].handles = rt.streams.slots[s.slot].handles - 1;
        }
        proof {
            rt.lemma_stream_changed(&mid, s);
        }
        self.s = None;
        Ok(Poll::Ready(()))
    }
}

} // verus!
