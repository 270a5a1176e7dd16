//! The suspendable operations.  Each is polled with the runtime's state and
//! the waker of the task that runs it, and says whether it is done.  Once an
//! operation has queued a descriptor it must be polled until it is done.

use crate::error::Fault;
use crate::packet;
use crate::packet::{
    spec_code, spec_header, Code, CODE_SERVICES, DOMAIN_CALL, DOMAIN_INFO, HEADER_SIZE,
};
use crate::process::Runtime;
use crate::runtime::Core;
use crate::send::{Place, SendLink, Share};
use crate::streams::Recv;
use crate::task::Waker;
use vstd::prelude::*;

verus! {

/// The state of an operation after a poll.
#[derive(Debug)]
pub enum Poll<T> {
    Ready(T),
    Pending,
}

/// How far an operation with one descriptor has come.
#[derive(Clone, Copy, Debug, PartialEq, Eq, Structural)]
pub enum Progress {
    /// Not polled yet.
    Fresh,
    /// The descriptor is queued or on its way.
    Started,
    /// Done; the descriptor's slot was given back.
    Done,
}

impl Core {
    /// The state after a waiting operation was polled whose descriptor is not
    /// back yet: the waker is left with the descriptor.
    pub open spec fn waiting(&self, before: &Core, link: SendLink, waker: Waker) -> bool {
        &&& self.same_lists(before)
        &&& self.free == before.free
        &&& self.tasks == before.tasks
        &&& self.shares@ == before.shares@.update(
            link.slot().unwrap() as int,
            (Share { waker: Some(waker), ..before.share(link) }),
        )
    }

    /// The state after an operation gave back the slot of its descriptor.
    pub open spec fn released(&self, before: &Core, link: SendLink) -> bool {
        &&& self.has_room()
        &&& self.same_lists(before)
        &&& self.tasks == before.tasks
        &&& self.shares@.len() == before.shares@.len()
        &&& self.share(link).place == Place::Free
        &&& forall|i: int|
            0 <= i < before.shares@.len() && i != link.slot().unwrap() ==> self.shares@[i]
                == before.shares@[i]
    }

    /// Polls for a descriptor that was queued: if it is back with its owner
    /// and sent whole, its slot is given back; if not, the waker is left with
    /// it.
    pub fn poll_sent(&mut self, link: SendLink, waker: Waker) -> (r: Result<bool, Fault>)
        requires
            old(self).wf(),
        ensures
            final(self).wf(),
            final(self).registry_kept(old(self)),
            match r {
                Err(e) => e == Fault::DescriptorLost && !old(self).live(link) && *final(self)
                    == *old(self),
                Ok(true) => old(self).live(link) && old(self).spec_finished(link)
                    && final(self).released(old(self), link),
                Ok(false) => old(self).live(link) && !old(self).spec_finished(link)
                    && final(self).waiting(old(self), link, waker),
            },
    {
        if !self.is_live(link) {
            return Err(Fault::DescriptorLost);
        }
        if self.finished(link) {
            self.release(link);
            Ok(true)
        } else {
            self.set_waker(link, waker);
            Ok(false)
        }
    }
}

/// An operation's hold on its descriptor.
#[derive(Clone, Copy, Debug, PartialEq, Eq, Structural)]
pub struct Op {
    pub link: SendLink,
    pub progress: Progress,
}

impl Op {
    /// What a poll does to an operation that sends one packet and expects no
    /// reply.  The first poll queues the packet.  Later polls find the
    /// descriptor sent and give its slot back, or leave the waker with it.
    /// An operation that is done stays done.
    pub open spec fn polled(
        &self,
        before: &Op,
        core: &Core,
        core0: &Core,
        header: Seq<u8>,
        content: Seq<u8>,
        waker: Waker,
        r: Result<bool, Fault>,
    ) -> bool {
        match before.progress {
            Progress::Fresh => match r {
                Ok(done) => !done && core0.has_room() && self.progress == Progress::Started
                    && core.started(
                    core0,
                    self.link,
                    header,
                    content,
                    false,
                    Some(waker),
                ),
                Err(e) => e == Fault::OutOfDescriptors && !core0.has_room()
                    && *self == *before && core.shares == core0.shares && core.same_lists(core0)
                    && core.tasks == core0.tasks,
            },
            Progress::Started => match r {
                Err(e) => e == Fault::DescriptorLost && !core0.live(before.link) && *core == *core0
                    && *self == *before,
                Ok(true) => core0.live(before.link) && core0.spec_finished(before.link)
                    && core.released(core0, before.link) && self.progress == Progress::Done,
                Ok(false) => core0.live(before.link) && !core0.spec_finished(before.link)
                    && core.waiting(core0, before.link, waker) && *self == *before,
            },
            Progress::Done => r == Ok::<bool, Fault>(true) && *core == *core0 && *self == *before,
        }
    }

    pub fn new() -> (r: Self)
        ensures
            r.progress == Progress::Fresh,
            r.link.addr == 0,
    {
        Op { link: SendLink::none(), progress: Progress::Fresh }
    }

    /// Polls an operation that sends one packet and expects no reply.  Says
    /// whether it is done.  The first poll takes the packet's spans.
    pub fn poll(
        &mut self,
        core: &mut Core,
        header: &mut Vec<u8>,
        content: &mut Vec<u8>,
        waker: Waker,
    ) -> (r: Result<bool, Fault>)
        requires
            old(core).wf(),
            old(self).progress == Progress::Fresh ==> old(header)@.len() + old(content)@.len() + 7
                <= u32::MAX && old(core).accepts(old(header)@, false),
        ensures
            final(core).wf(),
            final(core).registry_kept(old(core)),
            final(self).polled(
                old(self),
                final(core),
                old(core),
                old(header)@,
                old(content)@,
                waker,
                r,
            ),
            old(self).progress != Progress::Fresh || r.is_err() ==> *final(header) == *old(header)
                && *final(content) == *old(content),
    {
        match self.progress {
            Progress::Fresh => {
                let mut h: Vec<u8> = Vec::new();
                let mut c: Vec<u8> = Vec::new();
                if !core.room() {
                    return Err(Fault::OutOfDescriptors);
                }
                std::mem::swap(header, &mut h);
                std::mem::swap(content, &mut c);
                match core.start(h, c, false, Some(waker)) {
                    Ok(link) => {
                        self.link = link;
                        self.progress = Progress::Started;
                        Ok(false)
                    },
                    Err(e) => Err(e),
                }
            },
            Progress::Started => {
                match core.poll_sent(self.link, waker) {
                    Ok(true) => {
                        self.progress = Progress::Done;
                        Ok(true)
                    },
                    Ok(false) => Ok(false),
                    Err(e) => Err(e),
                }
            },
            Progress::Done => Ok(true),
        }
    }
}

/// Sends one packet to the registry, in the background.
pub struct ServiceFuture {
    pub packet: Vec<u8>,
    pub empty: Vec<u8>,
    pub op: Op,
}

impl ServiceFuture {
    /// Until the first poll, the operation holds a registry packet.
    pub open spec fn wf(&self) -> bool {
        self.op.progress == Progress::Fresh ==> self.packet@.len() >= HEADER_SIZE
            && self.packet@.len() + 7 <= u32::MAX && spec_code(self.packet@) == CODE_SERVICES
            && self.empty@.len() == 0
    }

    pub fn new(packet: Vec<u8>) -> (r: Self)
        requires
            packet@.len() >= HEADER_SIZE,
            packet@.len() + 7 <= u32::MAX,
            spec_code(packet@) == CODE_SERVICES,
        ensures
            r.wf(),
            r.packet == packet,
            r.op.progress == Progress::Fresh,
    {
        ServiceFuture { packet, empty: Vec::new(), op: Op::new() }
    }

    /// Queues the packet at the first poll, and is done once it was sent.
    pub fn poll(&mut self, core: &mut Core, waker: Waker) -> (r: Result<Poll<()>, Fault>)
        requires
            old(self).wf(),
            old(core).wf(),
        ensures
            final(self).wf(),
            final(core).wf(),
            final(core).registry_kept(old(core)),
            final(self).op.polled(
                &old(self).op,
                final(core),
                old(core),
                old(self).packet@,
                Seq::<u8>::empty(),
                waker,
                match r {
                    Ok(Poll::Ready(())) => Ok(true),
                    Ok(Poll::Pending) => Ok(false),
                    Err(e) => Err(e),
                },
            ),
    {
        proof {
            assert(self.op.progress == Progress::Fresh ==> self.empty@ =~= Seq::<u8>::empty());
        }
        let done = self.op.poll(core, &mut self.packet, &mut self.empty, waker);
        match done {
            Ok(true) => Ok(Poll::Ready(())),
            Ok(false) => Ok(Poll::Pending),
            Err(e) => Err(e),
        }
    }
}

/// Gives the other tasks a turn: done once its descriptor, which holds
/// nothing to send, has come to the front of the send queue.
pub struct YieldFuture {
    pub header: Vec<u8>,
    pub content: Vec<u8>,
    pub op: Op,
}

impl YieldFuture {
    /// Until the first poll, the operation holds nothing to send.
    pub open spec fn wf(&self) -> bool {
        self.op.progress == Progress::Fresh ==> self.header@.len() == 0 && self.content@.len() == 0
    }

    pub fn new() -> (r: Self)
        ensures
            r.wf(),
            r.op.progress == Progress::Fresh,
    {
        YieldFuture { header: Vec::new(), content: Vec::new(), op: Op::new() }
    }

    /// Queues a yield descriptor at the first poll, and is done once the
    /// drive loop took it from the front of the send queue.
    pub fn poll(&mut self, core: &mut Core, waker: Waker) -> (r: Result<Poll<()>, Fault>)
        requires
            old(self).wf(),
            old(core).wf(),
        ensures
            final(self).wf(),
            final(core).wf(),
            final(core).registry_kept(old(core)),
            final(self).op.polled(
                &old(self).op,
                final(core),
                old(core),
                Seq::<u8>::empty(),
                Seq::<u8>::empty(),
                waker,
                match r {
                    Ok(Poll::Ready(())) => Ok(true),
                    Ok(Poll::Pending) => Ok(false),
                    Err(e) => Err(e),
                },
            ),
    {
        proof {
            assert(self.op.progress == Progress::Fresh ==> self.header@ =~= Seq::<u8>::empty()
                && self.content@ =~= Seq::<u8>::empty());
        }
        match self.op.poll(core, &mut self.header, &mut self.content, waker) {
            Ok(true) => Ok(Poll::Ready(())),
            Ok(false) => Ok(Poll::Pending),
            Err(e) => Err(e),
        }
    }
}

/// Sends an info packet to a service.
pub struct InfoSendFuture {
    pub code: Code,
    pub header: Vec<u8>,
    pub content: Vec<u8>,
    pub op: Op,
}

impl InfoSendFuture {
    /// Until the first poll, the operation holds an info packet for its
    /// service.
    pub open spec fn wf(&self) -> bool {
        self.op.progress == Progress::Fresh ==> self.header@ == spec_header(
            HEADER_SIZE + self.content@.len(),
            self.code,
            DOMAIN_INFO,
        ) && HEADER_SIZE + self.content@.len() + 7 <= u32::MAX
    }

    pub fn new(code: Code, content: &[u8]) -> (r: Self)
        requires
            HEADER_SIZE + content@.len() + 7 <= u32::MAX,
        ensures
            r.wf(),
            r.code == code,
            r.content@ == content@,
            r.op.progress == Progress::Fresh,
    {
        let mut header: Vec<u8> = Vec::new();
        header.resize(HEADER_SIZE, 0u8);
        let len: usize = HEADER_SIZE + content.len();
        packet::header_into(header.as_mut_slice(), len, code, DOMAIN_INFO);
        let mut c: Vec<u8> = Vec::new();
        c.extend_from_slice(content);
        assert(header@ =~= spec_header(len as int, code, DOMAIN_INFO));
        InfoSendFuture { code, header, content: c, op: Op::new() }
    }

    /// Queues the packet at the first poll: in the send queue, or in the
    /// blocked queue of its service while that is unavailable.  Done once the
    /// packet was sent.  A service that is not registered is a fault.
    pub fn poll(&mut self, core: &mut Core, waker: Waker) -> (r: Result<Poll<()>, Fault>)
        requires
            old(self).wf(),
            old(core).wf(),
        ensures
            final(self).wf(),
            final(core).wf(),
            final(core).registry_kept(old(core)),
            final(self).code == old(self).code,
            old(self).op.progress == Progress::Fresh && old(self).code >= old(core).services@.len()
                ==> r == Err::<Poll<()>, Fault>(Fault::UnknownService)
                    && *final(core) == *old(core) && final(self).op == old(self).op,
            !(old(self).op.progress == Progress::Fresh
                && old(self).code >= old(core).services@.len()) ==> final(self).op.polled(
                &old(self).op,
                final(core),
                old(core),
                old(self).header@,
                old(self).content@,
                waker,
                match r {
                    Ok(Poll::Ready(())) => Ok(true),
                    Ok(Poll::Pending) => Ok(false),
                    Err(e) => Err(e),
                },
            ),
    {
        if self.op.progress == Progress::Fresh {
            if self.code >= 0 && self.code as usize >= core.services.len() {
                return Err(Fault::UnknownService);
            }
            proof {
                packet::lemma_header_round_trip(
                    (HEADER_SIZE + self.content@.len()) as u32,
                    self.code,
                    DOMAIN_INFO,
                );
            }
        }
        match self.op.poll(core, &mut self.header, &mut self.content, waker) {
            Ok(true) => Ok(Poll::Ready(())),
            Ok(false) => Ok(Poll::Pending),
            Err(e) => Err(e),
        }
    }
}

/// A call to a service: sends the call packet and waits for the reply.
pub struct CallFuture {
    pub code: Code,
    pub header: Vec<u8>,
    pub content: Vec<u8>,
    pub link: SendLink,
    pub polling: bool,
}

impl CallFuture {
    /// Until the first poll, the operation holds a call packet for its
    /// service.
    pub open spec fn wf(&self) -> bool {
        !self.polling ==> self.header@ == spec_header(
            HEADER_SIZE + self.content@.len(),
            self.code,
            DOMAIN_CALL,
        ) && HEADER_SIZE + self.content@.len() + 7 <= u32::MAX
    }

    pub fn new(code: Code, content: &[u8]) -> (r: Self)
        requires
            HEADER_SIZE + content@.len() + 7 <= u32::MAX,
        ensures
            r.wf(),
            r.code == code,
            r.content@ == content@,
            !r.polling,
    {
        let mut header: Vec<u8> = Vec::new();
        header.resize(HEADER_SIZE, 0u8);
        let len: usize = HEADER_SIZE + content.len();
        packet::header_into(header.as_mut_slice(), len, code, DOMAIN_CALL);
        let mut c: Vec<u8> = Vec::new();
        c.extend_from_slice(content);
        assert(header@ =~= spec_header(len as int, code, DOMAIN_CALL));
        CallFuture { code, header, content: c, link: SendLink::none(), polling: false }
    }

    /// What the first poll answers if it cannot queue the call.
    pub open spec fn start_fault(&self, core: &Core) -> Option<Fault> {
        if self.code < 0 || self.code >= core.services@.len() {
            Some(Fault::UnknownService)
        } else if !core.has_room() {
            Some(Fault::OutOfDescriptors)
        } else {
            None
        }
    }

    /// What a later poll answers if it cannot go on.
    pub open spec fn resume_fault(&self, rt: &Runtime) -> Option<Fault> {
        if !rt.core.live(self.link) {
            Some(Fault::DescriptorLost)
        } else {
            match rt.core.share(self.link).reply.spec_offset() {
                Some(off) => rt.recv_buf.consume_fault(off),
                None => None,
            }
        }
    }

    /// Polls the call.  The first poll queues the call packet: in the send
    /// queue, or in the blocked queue of the service while that is
    /// unavailable.  A later poll that finds the reply releases it from the
    /// receive buffer and hands out its content; the call is then as it was
    /// before its first poll.
    pub fn poll<'a>(&mut self, rt: &'a mut Runtime, waker: Waker) -> (r: Result<
        Poll<&'a [u8]>,
        Fault,
    >)
        requires
            old(self).wf(),
            old(rt).wf(),
        ensures
            final(rt).wf(),
            final(rt).core.registry_kept(&old(rt).core),
            final(rt).resumed == old(rt).resumed,
            final(rt).streams == old(rt).streams,
            final(self).code == old(self).code,
            !old(self).polling ==> match r {
                Err(e) => old(self).start_fault(&old(rt).core) == Some(e) && final(rt).core.shares
                    == old(rt).core.shares && final(rt).core.same_lists(&old(rt).core)
                        && final(rt).recv_buf == old(rt).recv_buf && !final(self).polling,
                Ok(Poll::Pending) => old(self).start_fault(&old(rt).core).is_none()
                    && final(self).polling && final(rt).recv_buf == old(rt).recv_buf
                    && final(rt).core.started(
                    &old(rt).core,
                    final(self).link,
                    old(self).header@,
                    old(self).content@,
                    true,
                    Some(waker),
                ),
                Ok(Poll::Ready(_)) => false,
            },
            old(self).polling ==> match r {
                Err(e) => old(self).resume_fault(old(rt)) == Some(e) && *final(rt) == *old(rt)
                    && final(self).polling && final(self).link == old(self).link,
                Ok(Poll::Pending) => old(rt).core.live(old(self).link) && old(rt).core.share(
                    old(self).link,
                ).reply.spec_offset().is_none() && final(rt).core.waiting(
                    &old(rt).core,
                    old(self).link,
                    waker,
                ) && final(rt).recv_buf == old(rt).recv_buf && final(self).polling
                    && final(self).link == old(self).link,
                Ok(Poll::Ready(reply)) => {
                    let off = old(rt).core.share(old(self).link).reply.spec_offset();
                    &&& old(self).resume_fault(old(rt)).is_none()
                    &&& off.is_some()
                    &&& reply@ == old(rt).recv_buf.packet_at(off.unwrap() as int).skip(
                        HEADER_SIZE as int,
                    )
                    &&& crate::dispatch::released(&final(rt).recv_buf, &old(rt).recv_buf)
                    &&& final(rt).core.released(&old(rt).core, old(self).link)
                    &&& !final(self).polling
                },
            },
    {
        if !self.polling {
            if self.code < 0 || self.code as usize >= rt.core.services.len() {
                return Err(Fault::UnknownService);
            }
            if !rt.core.room() {
                return Err(Fault::OutOfDescriptors);
            }
            proof {
                packet::lemma_header_round_trip(
                    (HEADER_SIZE + self.content@.len()) as u32,
                    self.code,
                    DOMAIN_CALL,
                );
            }
            let mut h: Vec<u8> = Vec::new();
            let mut c: Vec<u8> = Vec::new();
            std::mem::swap(&mut self.header, &mut h);
            std::mem::swap(&mut self.content, &mut c);
            match rt.core.start(h, c, true, Some(waker)) {
                Ok(link) => {
                    self.link = link;
                    self.polling = true;
                    Ok(Poll::Pending)
                },
                Err(e) => Err(e),
            }
        } else {
            if !rt.core.is_live(self.link) {
                return Err(Fault::DescriptorLost);
            }
            match rt.core.reply_offset(self.link) {
                Some(off) => {
                    let p = match rt.recv_buf.consume(off) {
                        Ok(p) => p,
                        Err(e) => {
                            return Err(e);
                        },
                    };
                    rt.core.release(self.link);
                    self.polling = false;
                    self.rearm();
                    let len: usize = p.len();
                    let reply = &p[HEADER_SIZE..len];
                    assert(reply@ =~= p@.skip(HEADER_SIZE as int));
                    Ok(Poll::Ready(reply))
                },
                None => {
                    rt.core.set_waker(self.link, waker);
                    Ok(Poll::Pending)
                },
            }
        }
    }

    /// Builds the header anew, for a call without content.
    fn rearm(&mut self)
        requires
            !old(self).polling,
        ensures
            final(self).wf(),
            final(self).code == old(self).code,
            final(self).link == old(self).link,
            !final(self).polling,
    {
        let mut header: Vec<u8> = Vec::new();
        header.resize(HEADER_SIZE, 0u8);
        packet::header_into(header.as_mut_slice(), HEADER_SIZE, self.code, DOMAIN_CALL);
        assert(header@ =~= spec_header(HEADER_SIZE as int, self.code, DOMAIN_CALL));
        self.header = header;
        self.content = Vec::new();
    }
}

/// Receives the info packets of a service, one per poll.  It is never done:
/// its task is dropped to stop it.
pub struct InfoRecvFuture {
    pub code: Code,
}

impl InfoRecvFuture {
    pub fn new(code: Code) -> (r: Self)
        ensures
            r.code == code,
    {
        InfoRecvFuture { code }
    }

    /// What a poll answers if it cannot go on.
    pub open spec fn poll_fault(&self, rt: &Runtime) -> Option<Fault> {
        if self.code < 0 || self.code >= rt.core.services@.len() {
            Some(Fault::UnknownService)
        } else {
            match rt.core.services@[self.code as int].info_recv {
                Recv::Offset(off) => rt.recv_buf.consume_fault(off),
                _ => None,
            }
        }
    }

    /// Polls for an info packet.  If one has come, it is released from the
    /// receive buffer and its content handed out.  In either case the waker
    /// is left with the service, for the next packet.
    pub fn poll<'a>(&self, rt: &'a mut Runtime, waker: Waker) -> (r: Result<Option<&'a [u8]>, Fault>)
        requires
            old(rt).wf(),
        ensures
            final(rt).wf(),
            final(rt).core.registry_kept(&old(rt).core),
            final(rt).resumed == old(rt).resumed,
            final(rt).streams == old(rt).streams,
            self.code < 0 || self.code >= old(rt).core.services@.len() ==> r == Err::<
                Option<&[u8]>,
                Fault,
            >(Fault::UnknownService) && *final(rt) == *old(rt),
            0 <= self.code < old(rt).core.services@.len() ==> final(rt).core.listening(
                &old(rt).core,
                self.code,
                waker,
            ) && match r {
                Err(e) => self.poll_fault(old(rt)) == Some(e)
                    && final(rt).recv_buf == old(rt).recv_buf,
                Ok(None) => match old(rt).core.services@[self.code as int].info_recv {
                    Recv::Offset(_) => false,
                    _ => final(rt).recv_buf == old(rt).recv_buf,
                },
                Ok(Some(info)) => match old(rt).core.services@[self.code as int].info_recv {
                    Recv::Offset(off) => self.poll_fault(old(rt)).is_none()
                        && info@ == old(rt).recv_buf.packet_at(off as int).skip(HEADER_SIZE as int)
                        && crate::dispatch::released(&final(rt).recv_buf, &old(rt).recv_buf),
                    _ => false,
                },
            },
    {
        if self.code < 0 || self.code as usize >= rt.core.services.len() {
            return Err(Fault::UnknownService);
        }
        match rt.core.listen(self.code, waker) {
            Recv::Offset(off) => {
                let p = match rt.recv_buf.consume(off) {
                    Ok(p) => p,
                    Err(e) => {
                        return Err(e);
                    },
                };
                let len: usize = p.len();
                let info = &p[HEADER_SIZE..len];
                assert(info@ =~= p@.skip(HEADER_SIZE as int));
                Ok(Some(info))
            },
            _ => Ok(None),
        }
    }
}

} // verus!
