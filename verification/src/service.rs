//! Service binding implementation support.

use crate::future::{CallFuture, InfoRecvFuture, InfoSendFuture, ServiceFuture};
use crate::packet;
use crate::packet::{Code, CODE_SERVICES, DOMAIN_CALL, HEADER_SIZE, SERVICES_HEADER_SIZE};
use crate::process::Runtime;
use crate::runtime::{spec_register_packet, Core, RegistrationError, MAX_NAME_LEN, MAX_SERVICES};
use crate::stream::{RecvStream, RecvWriteStream, WriteStream};
use crate::streams::{StreamFlags, STREAM_ALL};
use vstd::prelude::*;
use vstd::string::StringSliceAdditionalSpecFns;

verus! {

/// The flags of a stream that carries data to this side only.
pub const STREAM_INPUT: StreamFlags = 5;

/// The flags of a stream that carries data to the peer only.
pub const STREAM_OUTPUT: StreamFlags = 10;

/// The registration packet is a registry packet of a size that fits.
pub proof fn lemma_register_packet(name: Seq<u8>)
    requires
        0 < name.len() <= MAX_NAME_LEN,
    ensures
        spec_register_packet(name).len() == SERVICES_HEADER_SIZE + 1 + name.len(),
        packet::spec_code(spec_register_packet(name)) == CODE_SERVICES,
        packet::spec_domain(spec_register_packet(name)) == DOMAIN_CALL,
        packet::spec_size(spec_register_packet(name)) == SERVICES_HEADER_SIZE + 1 + name.len(),
        packet::spec_service_count(spec_register_packet(name)) == 1,
{
    let size = (SERVICES_HEADER_SIZE + 1 + name.len()) as u32;
    packet::lemma_services_header_round_trip(size, 1);
    let h = packet::spec_services_header(size as int, 1);
    let p = spec_register_packet(name);
    assert(p.len() == SERVICES_HEADER_SIZE + 1 + name.len());
    assert forall|i: int| 0 <= i < SERVICES_HEADER_SIZE implies p[i] == h[i] by {}
}

/// Handle to a registered service.
///
/// If a stream is opened as a result of service registration or a call, the
/// appropriate stream constructor must be called immediately.
#[derive(Clone, Copy, Debug, PartialEq, Eq, Structural)]
pub struct Service {
    pub code: Code,
}

impl Service {
    /// Register a service.  With the handle comes the operation that sends
    /// the registration to the registry, to be run in the background.
    pub fn try_register(core: &mut Core, name: &str) -> (r: Result<
        (Self, ServiceFuture),
        RegistrationError,
    >)
        requires
            old(core).wf(),
            0 < name.spec_bytes().len() <= MAX_NAME_LEN,
        ensures
            final(core).wf(),
            final(core).shares == old(core).shares,
            final(core).send_list == old(core).send_list,
            final(core).tasks == old(core).tasks,
            match r {
                Ok((service, future)) => {
                    &&& !old(core).has_name(name.spec_bytes())
                    &&& old(core).services@.len() < MAX_SERVICES
                    &&& service.code == old(core).services@.len()
                    &&& final(core).services@.len() == old(core).services@.len() + 1
                    &&& final(core).names@[service.code as int]@ == name.spec_bytes()
                    &&& forall|i: int|
                        0 <= i < old(core).services@.len()
                            ==> final(core).services@[i] == old(core).services@[i]
                            && final(core).names@[i] == old(core).names@[i]
                    &&& !final(core).avail(service.code)
                    &&& future.wf()
                    &&& future.op.progress == crate::future::Progress::Fresh
                    &&& future.packet@ == spec_register_packet(name.spec_bytes())
                },
                Err(RegistrationError::NameAlreadyRegistered) => old(core).has_name(
                    name.spec_bytes(),
                ) && final(core).names == old(core).names
                    && final(core).services == old(core).services,
                Err(RegistrationError::TooManyServices) => !old(core).has_name(name.spec_bytes())
                    && old(core).services@.len() >= MAX_SERVICES
                        && final(core).names == old(core).names
                        && final(core).services == old(core).services,
            },
    {
        match core.register_service(name) {
            Ok((code, packet)) => {
                proof {
                    lemma_register_packet(name.spec_bytes());
                }
                Ok((Service { code }, ServiceFuture::new(packet)))
            },
            Err(e) => Err(e),
        }
    }

    /// Register a service that is known to be new.
    pub fn register(core: &mut Core, name: &str) -> (r: (Self, ServiceFuture))
        requires
            old(core).wf(),
            0 < name.spec_bytes().len() <= MAX_NAME_LEN,
            !old(core).has_name(name.spec_bytes()),
            old(core).services@.len() < MAX_SERVICES,
        ensures
            final(core).wf(),
            r.0.code == old(core).services@.len(),
            final(core).services@.len() == old(core).services@.len() + 1,
            !final(core).avail(r.0.code),
            final(core).shares == old(core).shares,
            final(core).send_list == old(core).send_list,
            final(core).tasks == old(core).tasks,
            final(core).names@[r.0.code as int]@ == name.spec_bytes(),
            forall|i: int|
                0 <= i < old(core).services@.len()
                    ==> final(core).services@[i] == old(core).services@[i]
                    && final(core).names@[i] == old(core).names@[i],
            r.1.wf(),
            r.1.op.progress == crate::future::Progress::Fresh,
            r.1.packet@ == spec_register_packet(name.spec_bytes()),
    {
        match Self::try_register(core, name) {
            Ok(r) => r,
            Err(_) => vstd::pervasive::unreached(),
        }
    }

    /// Call the service.  Returns the operation.
    pub fn call(&self, content: &[u8]) -> (r: CallFuture)
        requires
            HEADER_SIZE + content@.len() + 7 <= u32::MAX,
        ensures
            r.wf(),
            r.code == self.code,
            r.content@ == content@,
            !r.polling,
    {
        CallFuture::new(self.code, content)
    }

    /// Receive info packets from the service repeatedly.  Returns the
    /// operation.
    pub fn recv_info(&self) -> (r: InfoRecvFuture)
        ensures
            r.code == self.code,
    {
        InfoRecvFuture::new(self.code)
    }

    /// Send an info packet to the service.  Returns the operation.
    pub fn send_info(&self, content: &[u8]) -> (r: InfoSendFuture)
        requires
            HEADER_SIZE + content@.len() + 7 <= u32::MAX,
        ensures
            r.wf(),
            r.code == self.code,
            r.content@ == content@,
            r.op.progress == crate::future::Progress::Fresh,
    {
        InfoSendFuture::new(self.code, content)
    }

    /// Whether a stream with this id can be opened: the service is
    /// registered, the id is not negative, and no stream of the service has
    /// it.
    pub open spec fn can_open(&self, rt: &Runtime, id: i32) -> bool {
        &&& id >= 0
        &&& 0 <= self.code < rt.core.services@.len()
        &&& !rt.streams.has(self.code, id)
    }

    /// Whether a stream with this id can be opened.
    pub fn may_open(&self, rt: &Runtime, id: i32) -> (r: bool)
        ensures
            r == self.can_open(rt, id),
    {
        id >= 0 && self.code >= 0 && (self.code as usize) < rt.core.services.len()
            && !rt.streams.contains(self.code, id)
    }

    /// Construct a handle to a new bidirectional stream.
    pub fn stream(&self, rt: &mut Runtime, id: i32) -> (r: RecvWriteStream)
        requires
            old(rt).wf(),
            self.can_open(old(rt), id),
        ensures
            final(rt).wf(),
            final(rt).core == old(rt).core,
            final(rt).recv_buf == old(rt).recv_buf,
            old(rt).streams.slots@.len() < usize::MAX ==> r.s.is_some(),
            r.s.is_some() ==> final(rt).streams.valid(r.s.unwrap()) && Runtime::opened(
                self.code,
                id,
                STREAM_ALL,
                final(rt).streams.state(r.s.unwrap()),
            ),
            r.s.is_none() ==> final(rt).streams == old(rt).streams,
    {
        RecvWriteStream::new(rt.init_stream(self.code, id, STREAM_ALL))
    }

    /// Construct a handle to a new unidirectional stream.
    pub fn input_stream(&self, rt: &mut Runtime, id: i32) -> (r: RecvStream)
        requires
            old(rt).wf(),
            self.can_open(old(rt), id),
        ensures
            final(rt).wf(),
            final(rt).core == old(rt).core,
            final(rt).recv_buf == old(rt).recv_buf,
            old(rt).streams.slots@.len() < usize::MAX ==> r.s.is_some(),
            r.s.is_some() ==> final(rt).streams.valid(r.s.unwrap()) && Runtime::opened(
                self.code,
                id,
                STREAM_INPUT,
                final(rt).streams.state(r.s.unwrap()),
            ),
            r.s.is_none() ==> final(rt).streams == old(rt).streams,
    {
        RecvStream::new(rt.init_stream(self.code, id, STREAM_INPUT))
    }

    /// Construct a handle to a new unidirectional stream.
    pub fn output_stream(&self, rt: &mut Runtime, id: i32) -> (r: WriteStream)
        requires
            old(rt).wf(),
            self.can_open(old(rt), id),
        ensures
            final(rt).wf(),
            final(rt).core == old(rt).core,
            final(rt).recv_buf == old(rt).recv_buf,
            old(rt).streams.slots@.len() < usize::MAX ==> r.s.is_some(),
            r.s.is_some() ==> final(rt).streams.valid(r.s.unwrap()) && Runtime::opened(
                self.code,
                id,
                STREAM_OUTPUT,
                final(rt).streams.state(r.s.unwrap()),
            ),
            r.s.is_none() ==> final(rt).streams == old(rt).streams,
    {
        WriteStream::new(rt.init_stream(self.code, id, STREAM_OUTPUT))
    }
}

} // verus!
