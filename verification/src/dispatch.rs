//! The receive side of the drive loop: one whole packet is taken from the
//! head of the receive buffer and handed to what it is for.

use crate::error::Fault;
use crate::packet;
use crate::packet::{
    spec_code, spec_data_id, spec_data_note, spec_domain, spec_flow_count, spec_flow_id,
    spec_flow_increment, spec_index, spec_service_count, spec_service_states, Code,
    CODE_SERVICES, DATA_HEADER_SIZE, DOMAIN_CALL, DOMAIN_DATA, DOMAIN_FLOW, DOMAIN_INFO,
    HEADER_SIZE, MAX_PACKET_SIZE, SERVICES_HEADER_SIZE,
};
use crate::process::Runtime;
use crate::recv::RecvBuf;
use crate::registry::updated;
use vstd::prelude::*;

verus! {

/// The receive buffer after the packet at its head was released.
pub open spec fn released(after: &RecvBuf, before: &RecvBuf) -> bool {
    &&& after.buf@ == before.buf@
    &&& !after.in_use
    &&& after.pending() == before.pending().skip(before.head_packet_len())
}

/// The receive buffer after a consumer took the offset of the packet at its
/// head: the packet stays where it is.
pub open spec fn claimed(after: &RecvBuf, before: &RecvBuf) -> bool {
    &&& after.buf == before.buf
    &&& after.head == before.head
    &&& after.tail == before.tail
    &&& after.in_use
}

/// The state after the first `n` entries of the flow packet `p` were taken
/// in, one after the other.
pub open spec fn flows_taken(before: &Runtime, after: &Runtime, code: Code, p: Seq<u8>, n: int) -> bool {
    exists|states: Seq<Runtime>|
        {
            &&& states.len() == n + 1
            &&& states[0] == *before
            &&& states[n] == *after
            &&& forall|i: int|
                0 <= i < n ==> (#[trigger] states[i + 1]).flow_taken(
                    &states[i],
                    code,
                    spec_flow_id(p, i),
                    spec_flow_increment(p, i),
                )
        }
}

impl Runtime {
    /// The packet at the head of the receive buffer.
    pub open spec fn head_packet(&self) -> Seq<u8> {
        self.recv_buf.packet_at(self.recv_buf.head.off as int)
    }

    /// Whether a packet waits to be dispatched: it is whole, and no consumer
    /// holds it yet.
    pub open spec fn has_work(&self) -> bool {
        self.recv_buf.packet_ready() && !self.recv_buf.in_use
    }

    /// Takes in the entries of the flow packet at the head of the receive
    /// buffer, in order, up to the first that is a fault.
    fn process_flows(&mut self, code: Code, off: usize, size: usize) -> (r: Result<(), Fault>)
        requires
            old(self).wf(),
            off == old(self).recv_buf.head.off,
            HEADER_SIZE <= size <= MAX_PACKET_SIZE,
            size == old(self).recv_buf.size_at(off as int),
            off + size <= crate::recv::RECV_BUF_SIZE,
        ensures
            final(self).wf(),
            final(self).core.registry_kept(&old(self).core),
            final(self).resumed == old(self).resumed,
            final(self).recv_buf == old(self).recv_buf,
            match r {
                Ok(()) => flows_taken(
                    old(self),
                    final(self),
                    code,
                    old(self).head_packet(),
                    spec_flow_count(old(self).head_packet()),
                ),
                Err(e) => exists|k: int|
                    0 <= k < spec_flow_count(old(self).head_packet()) && #[trigger] flows_taken(
                        old(self),
                        final(self),
                        code,
                        old(self).head_packet(),
                        k,
                    ) && final(self).flow_fault(
                        code,
                        spec_flow_id(old(self).head_packet(), k),
                        spec_flow_increment(old(self).head_packet(), k),
                    ) == Some(e),
            },
    {
        let ghost p = self.head_packet();
        assert(self.recv_buf.buf@.subrange(off as int, off + size) == p);
        let count: usize = packet::flow_count(&self.recv_buf.buf[off..off + size]);
        let ghost mut states: Seq<Runtime> = seq![*self];
        let mut i: usize = 0;
        while i < count
            invariant
                self.wf(),
                self.recv_buf == old(self).recv_buf,
                self.resumed == old(self).resumed,
                self.core.registry_kept(&old(self).core),
                p == old(self).head_packet(),
                p.len() == size,
                size == old(self).recv_buf.size_at(off as int),
                off == old(self).recv_buf.head.off,
                HEADER_SIZE <= size <= MAX_PACKET_SIZE,
                off + size <= crate::recv::RECV_BUF_SIZE,
                count == spec_flow_count(p),
                i <= count,
                states.len() == i + 1,
                states[0] == *old(self),
                states[i as int] == *self,
                forall|k: int|
                    0 <= k < i ==> (#[trigger] states[k + 1]).flow_taken(
                        &states[k],
                        code,
                        spec_flow_id(p, k),
                        spec_flow_increment(p, k),
                    ),
            decreases count - i,
        {
            let ghost before = *self;
            assert(self.recv_buf.buf@.subrange(off as int, off + size) == p);
            assert(HEADER_SIZE + packet::FLOW_SIZE * i + packet::FLOW_SIZE <= size) by {
                assert(i + 1 <= count);
                assert(count * 8 <= size - HEADER_SIZE);
            }
            let flow = packet::flow(&self.recv_buf.buf[off..off + size], i);
            assert(flow.id == spec_flow_id(p, i as int));
            assert(flow.increment == spec_flow_increment(p, i as int));
            match self.handle_flow(code, flow.id, flow.increment) {
                Ok(()) => {},
                Err(e) => {
                    proof {
                        assert(*self == before);
                        assert(flows_taken(old(self), self, code, p, i as int));
                    }
                    return Err(e);
                },
            }
            proof {
                let next = states.push(*self);
                assert forall|k: int| 0 <= k < i + 1 implies (#[trigger] next[k + 1]).flow_taken(
                    &next[k],
                    code,
                    spec_flow_id(p, k),
                    spec_flow_increment(p, k),
                ) by {
                    if k < i {
                        assert(next[k] == states[k]);
                        assert(next[k + 1] == states[k + 1]);
                        assert(states[k + 1].flow_taken(
                            &states[k],
                            code,
                            spec_flow_id(p, k),
                            spec_flow_increment(p, k),
                        ));
                    } else {
                        assert(next[k] == before);
                        assert(next[k + 1] == *self);
                    }
                }
                states = next;
            }
            i += 1;
        }
        proof {
            assert(flows_taken(old(self), self, code, p, count as int));
        }
        Ok(())
    }
}

impl Runtime {
    /// Whether the registry packet `p` holds the flags bytes that its count
    /// announces.
    pub open spec fn registry_in_bounds(p: Seq<u8>) -> bool {
        p.len() >= SERVICES_HEADER_SIZE && SERVICES_HEADER_SIZE + spec_service_count(p) <= p.len()
    }

    /// What dispatching the packet at the head of the receive buffer does to
    /// the tables, and whether a consumer has taken the packet's offset.  A
    /// packet of the registry brings the services' availability up to date.
    /// A call packet is the reply to a call of its service; an info packet is
    /// left for its service's receiver; the entries of a flow packet and a
    /// data packet go to their streams.
    pub open spec fn dispatched(&self, before: &Runtime, kept: bool) -> bool {
        let off = before.recv_buf.head.off;
        let p = before.head_packet();
        let code = spec_code(p);
        let domain = spec_domain(p);
        &&& self.recv_buf == before.recv_buf
        &&& self.resumed == before.resumed
        &&& if code == CODE_SERVICES {
            &&& !kept
            &&& self.streams == before.streams
            &&& if domain == DOMAIN_CALL || domain == DOMAIN_INFO {
                Self::registry_in_bounds(p) && updated(
                    &before.core,
                    &self.core,
                    spec_service_states(p),
                )
            } else {
                self.core == before.core
            }
        } else if domain == DOMAIN_CALL {
            &&& kept
            &&& self.streams == before.streams
            &&& self.core.reply_dispatched(&before.core, code, spec_index(p) as usize, off)
        } else if domain == DOMAIN_INFO {
            &&& kept
            &&& self.streams == before.streams
            &&& self.core.info_deposited(&before.core, code, off)
        } else if domain == DOMAIN_FLOW {
            &&& !kept
            &&& flows_taken(before, self, code, p, spec_flow_count(p))
        } else if domain == DOMAIN_DATA {
            let data_size = (p.len() - DATA_HEADER_SIZE) as usize;
            &&& p.len() >= DATA_HEADER_SIZE
            &&& kept == (data_size > 0)
            &&& self.data_taken(before, code, spec_data_id(p), data_size, spec_data_note(p), off)
        } else {
            &&& !kept
            &&& self.streams == before.streams
            &&& self.core == before.core
        }
    }

    /// The state after the packet at the head of the receive buffer was
    /// dispatched.  The packet stays in the buffer where a consumer has taken
    /// its offset, and is released if not.
    pub open spec fn processed(&self, before: &Runtime) -> bool {
        exists|mid: Runtime, kept: bool| #[trigger]
            mid.dispatched(before, kept) && self.core == mid.core && self.streams == mid.streams
                && self.resumed == mid.resumed && if kept {
                claimed(&self.recv_buf, &before.recv_buf)
            } else {
                released(&self.recv_buf, &before.recv_buf)
            }
    }

    /// Why the packet at the head of the receive buffer could not be
    /// dispatched.
    pub open spec fn faulted(&self, before: &Runtime, e: Fault) -> bool {
        let p = before.head_packet();
        let size = before.recv_buf.size_at(before.recv_buf.head.off as int);
        let code = spec_code(p);
        let domain = spec_domain(p);
        if size < HEADER_SIZE || size > MAX_PACKET_SIZE {
            e == Fault::PacketSizeOutOfBounds
        } else if code == CODE_SERVICES {
            &&& domain == DOMAIN_CALL || domain == DOMAIN_INFO
            &&& if !Self::registry_in_bounds(p) {
                e == Fault::PacketSizeOutOfBounds
            } else {
                e == Fault::UnknownService && spec_service_count(p) > before.core.services@.len()
            }
        } else if domain == DOMAIN_CALL {
            before.core.reply_fault(code, spec_index(p) as usize) == Some(e)
        } else if domain == DOMAIN_INFO {
            e == Fault::UnknownService && (code < 0 || code >= before.core.services@.len())
        } else if domain == DOMAIN_FLOW {
            exists|k: int, mid: Runtime|
                0 <= k < spec_flow_count(p) && #[trigger] flows_taken(before, &mid, code, p, k)
                    && mid.flow_fault(code, spec_flow_id(p, k), spec_flow_increment(p, k)) == Some(
                    e,
                ) && self.core == mid.core && self.streams == mid.streams
        } else if domain == DOMAIN_DATA {
            if p.len() < DATA_HEADER_SIZE {
                e == Fault::PacketSizeOutOfBounds
            } else {
                before.data_fault(code, spec_data_id(p), (p.len() - DATA_HEADER_SIZE) as usize)
                    == Some(e)
            }
        } else {
            false
        }
    }

    /// Hands the packet at the head of the receive buffer to what it is for.
    /// Says whether a consumer has taken the packet's offset.
    fn dispatch(&mut self, off: usize, size: usize) -> (r: Result<bool, Fault>)
        requires
            old(self).wf(),
            off == old(self).recv_buf.head.off,
            HEADER_SIZE <= size <= MAX_PACKET_SIZE,
            size == old(self).recv_buf.size_at(off as int),
            off + size <= crate::recv::RECV_BUF_SIZE,
        ensures
            final(self).wf(),
            final(self).core.registry_kept(&old(self).core),
            final(self).resumed == old(self).resumed,
            final(self).recv_buf == old(self).recv_buf,
            match r {
                Ok(kept) => final(self).dispatched(old(self), kept),
                Err(e) => final(self).faulted(old(self), e),
            },
    {
        let ghost p = self.head_packet();
        assert(self.recv_buf.buf@.subrange(off as int, off + size) == p);
        let code: Code = packet::code(&self.recv_buf.buf[off..off + size]);
        let domain: u8 = packet::domain(&self.recv_buf.buf[off..off + size]);
        if code == CODE_SERVICES {
            if domain == DOMAIN_CALL || domain == DOMAIN_INFO {
                if size < SERVICES_HEADER_SIZE {
                    return Err(Fault::PacketSizeOutOfBounds);
                }
                let count: usize = packet::service_count(&self.recv_buf.buf[off..off + size]);
                if SERVICES_HEADER_SIZE + count > size {
                    return Err(Fault::PacketSizeOutOfBounds);
                }
                let states = packet::service_states(&self.recv_buf.buf[off..off + size]);
                match self.core.update_services(states) {
                    Ok(()) => {},
                    Err(e) => {
                        return Err(e);
                    },
                }
            }
            Ok(false)
        } else if domain == DOMAIN_CALL {
            let index: usize = packet::index(&self.recv_buf.buf[off..off + size]);
            match self.core.dispatch_reply(code, index, off) {
                Ok(()) => Ok(true),
                Err(e) => Err(e),
            }
        } else if domain == DOMAIN_INFO {
            match self.core.dispatch_info(code, off) {
                Ok(()) => Ok(true),
                Err(e) => Err(e),
            }
        } else if domain == DOMAIN_FLOW {
            match self.process_flows(code, off, size) {
                Ok(()) => Ok(false),
                Err(e) => Err(e),
            }
        } else if domain == DOMAIN_DATA {
            if size < DATA_HEADER_SIZE {
                return Err(Fault::PacketSizeOutOfBounds);
            }
            let id = packet::data_id(&self.recv_buf.buf[off..off + size]);
            let note = packet::data_note(&self.recv_buf.buf[off..off + size]);
            self.handle_data(code, id, size - DATA_HEADER_SIZE, note, off)
        } else {
            Ok(false)
        }
    }

    /// Dispatches at most one packet: the one at the head of the receive
    /// buffer, if it is whole and no consumer holds it yet.
    pub fn process_received(&mut self) -> (r: Result<(), Fault>)
        requires
            old(self).wf(),
        ensures
            final(self).wf(),
            final(self).core.registry_kept(&old(self).core),
            final(self).resumed == old(self).resumed,
            !old(self).has_work() ==> r.is_ok() && *final(self) == *old(self),
            old(self).has_work() ==> match r {
                Ok(()) => HEADER_SIZE <= old(self).head_packet().len() <= MAX_PACKET_SIZE
                    && final(self).processed(old(self)),
                Err(e) => final(self).faulted(old(self), e)
                    && final(self).recv_buf == old(self).recv_buf,
            },
    {
        if self.recv_buf.in_use || !self.recv_buf.has_packet() {
            return Ok(());
        }
        let off: usize = self.recv_buf.head.off;
        let size: usize = self.recv_buf.packet_size(off);
        if size < HEADER_SIZE || size > MAX_PACKET_SIZE {
            return Err(Fault::PacketSizeOutOfBounds);
        }
        assert(off + size <= crate::recv::RECV_BUF_SIZE) by {
            packet::lemma_align(size as nat);
        }
        let kept: bool = match self.dispatch(off, size) {
            Ok(kept) => kept,
            Err(e) => {
                return Err(e);
            },
        };
        let ghost mid = *self;
        proof {
            assert(mid.dispatched(old(self), kept));
        }
        if kept {
            self.recv_buf.claim();
            Ok(())
        } else {
            self.recv_buf.consumed()
        }
    }
}

} // verus!
