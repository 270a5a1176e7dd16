//! Packet headers as records, the checks on packets that a program hands
//! over whole, and the decisions of a drive loop that receives one packet at
//! a time.

use crate::packet;
use crate::packet::{
    bits_i16, i16_bits, i32_bits, le16, le32, read16, read32, Domain, CODE_SERVICES,
    DOMAIN_CALL, DOMAIN_DATA, DOMAIN_FLOW,
};
use vstd::prelude::*;

verus! {

/// Maximum packet size.
pub const MAX_SIZE: usize = 65536;

/// Size of a serialized packet header.
pub const HEADER_SIZE: usize = 8;

/// Size of a serialized service discovery packet header.
pub const SERVICES_HEADER_SIZE: usize = HEADER_SIZE + 8;

/// Size of a serialized stream flow packet header.
pub const FLOW_HEADER_SIZE: usize = HEADER_SIZE;

/// Size of a serialized stream flow item.
pub const FLOW_SIZE: usize = 8;

/// Size of a serialized stream data packet header.
pub const DATA_HEADER_SIZE: usize = HEADER_SIZE + 8;

/// State packet domain.
pub const DOMAIN_STATE: Domain = 1;

/// Packet header.
#[derive(Clone, Copy, Debug, PartialEq, Eq, Structural)]
pub struct Header {
    pub size: u32,
    pub code: i16,
    pub domain: Domain,
    pub reserved0: u8,
}

/// New packet header.
pub fn new_header(size: usize, code: i16, domain: Domain) -> (r: Header)
    requires
        size <= u32::MAX,
    ensures
        r == (Header { size: size as u32, code, domain, reserved0: 0 }),
{
    Header { size: size as u32, code, domain, reserved0: 0 }
}

/// Services packet header.
#[derive(Clone, Copy, Debug, PartialEq, Eq, Structural)]
pub struct ServicesHeader {
    pub packet: Header,
    pub count: u16,
    pub reserved0: u16,
    pub reserved1: u32,
}

/// New services packet header.
pub fn new_services_header(size: usize, count: u16) -> (r: ServicesHeader)
    requires
        size <= u32::MAX,
    ensures
        r == (ServicesHeader {
            packet: Header { size: size as u32, code: CODE_SERVICES, domain: DOMAIN_CALL, reserved0: 0 },
            count,
            reserved0: 0,
            reserved1: 0,
        }),
{
    ServicesHeader {
        packet: new_header(size, CODE_SERVICES, DOMAIN_CALL),
        count,
        reserved0: 0,
        reserved1: 0,
    }
}

/// New stream flow packet header.
pub fn new_flow_header(size: usize, code: i16) -> (r: Header)
    requires
        size <= u32::MAX,
    ensures
        r == (Header { size: size as u32, code, domain: DOMAIN_FLOW, reserved0: 0 }),
{
    new_header(size, code, DOMAIN_FLOW)
}

/// Stream flow item.
#[derive(Clone, Copy, Debug, PartialEq, Eq, Structural)]
pub struct Flow {
    pub id: i32,
    pub increment: u32,
}

/// Stream data packet header.
#[derive(Clone, Copy, Debug, PartialEq, Eq, Structural)]
pub struct DataHeader {
    pub packet: Header,
    pub id: i32,
    pub reserved0: u32,
}

/// New stream data packet header.
pub fn new_data_header(size: usize, code: i16, id: i32) -> (r: DataHeader)
    requires
        size <= u32::MAX,
    ensures
        r == (DataHeader {
            packet: Header { size: size as u32, code, domain: DOMAIN_DATA, reserved0: 0 },
            id,
            reserved0: 0,
        }),
{
    DataHeader { packet: new_header(size, code, DOMAIN_DATA), id, reserved0: 0 }
}

/// The eight bytes of a header: its fields in order, least significant byte
/// first.
pub open spec fn spec_serialize_header(h: Header) -> Seq<u8> {
    le32(h.size as int) + le16(i16_bits(h.code)) + seq![h.domain, h.reserved0]
}

/// The header that the first eight bytes of `data` hold.
pub open spec fn spec_deserialize_header(data: Seq<u8>) -> Header {
    Header {
        size: read32(data, 0) as u32,
        code: bits_i16(read16(data, 4)),
        domain: data[6],
        reserved0: data[7],
    }
}

/// The bytes of a header.
pub fn serialize_header(h: &Header) -> (r: Vec<u8>)
    ensures
        r@ == spec_serialize_header(*h),
        r@.len() == HEADER_SIZE,
{
    let mut p: Vec<u8> = Vec::new();
    p.resize(HEADER_SIZE, 0u8);
    packet::header_into(p.as_mut_slice(), h.size as usize, h.code, h.domain);
    p.set(7, h.reserved0);
    assert(p@ =~= spec_serialize_header(*h));
    p
}

/// The bytes of a services packet header.
pub fn serialize_services_header(h: &ServicesHeader) -> (r: Vec<u8>)
    ensures
        r@ == spec_serialize_header(h.packet) + le16(h.count as int) + le16(h.reserved0 as int)
            + le32(h.reserved1 as int),
        r@.len() == SERVICES_HEADER_SIZE,
{
    let mut p = serialize_header(&h.packet);
    append16(&mut p, h.count);
    append16(&mut p, h.reserved0);
    append32(&mut p, h.reserved1);
    p
}

/// The bytes of a stream data packet header.
pub fn serialize_data_header(h: &DataHeader) -> (r: Vec<u8>)
    ensures
        r@ == spec_serialize_header(h.packet) + le32(i32_bits(h.id)) + le32(h.reserved0 as int),
        r@.len() == DATA_HEADER_SIZE,
{
    let mut p = serialize_header(&h.packet);
    let id: u32 = if h.id >= 0 {
        h.id as u32
    } else {
        (h.id as i64 + 0x1_0000_0000) as u32
    };
    append32(&mut p, id);
    append32(&mut p, h.reserved0);
    p
}

/// The bytes of a stream flow item.
pub fn serialize_flow(f: &Flow) -> (r: Vec<u8>)
    ensures
        r@ == le32(i32_bits(f.id)) + le32(f.increment as int),
        r@.len() == FLOW_SIZE,
{
    let mut p: Vec<u8> = Vec::new();
    let id: u32 = if f.id >= 0 {
        f.id as u32
    } else {
        (f.id as i64 + 0x1_0000_0000) as u32
    };
    append32(&mut p, id);
    append32(&mut p, f.increment);
    assert(p@ =~= le32(i32_bits(f.id)) + le32(f.increment as int));
    p
}

fn append16(p: &mut Vec<u8>, x: u16)
    ensures
        final(p)@ == old(p)@ + le16(x as int),
{
    p.push((x % 256) as u8);
    p.push((x / 256) as u8);
    assert(p@ =~= old(p)@ + le16(x as int));
}

fn append32(p: &mut Vec<u8>, x: u32)
    ensures
        final(p)@ == old(p)@ + le32(x as int),
{
    p.push((x % 256) as u8);
    p.push((x / 256 % 256) as u8);
    p.push((x / 256 / 256 % 256) as u8);
    p.push((x / 256 / 256 / 256) as u8);
    assert(p@ =~= old(p)@ + le32(x as int));
}

/// Deserialize the size field of a packet.  Other header fields and packet
/// contents are ignored.
pub fn deserialize_size(data: &Vec<u8>) -> (r: usize)
    requires
        data@.len() >= 4,
    ensures
        r == read32(data@, 0),
{
    packet::size(data.as_slice())
}

/// Deserialize the header of a packet.  Packet contents are ignored.
pub fn deserialize_header(data: &Vec<u8>) -> (r: Header)
    requires
        data@.len() >= HEADER_SIZE,
    ensures
        r == spec_deserialize_header(data@),
{
    let p = data.as_slice();
    Header {
        size: packet::size(p) as u32,
        code: packet::code(p),
        domain: packet::domain(p),
        reserved0: p[7],
    }
}

/// Serializing a header and deserializing the bytes gives the header back.
pub proof fn lemma_header_record_round_trip(h: Header)
    ensures
        spec_serialize_header(h).len() == HEADER_SIZE,
        spec_deserialize_header(spec_serialize_header(h)) == h,
{
    packet::lemma_header_round_trip(h.size, h.code, h.domain);
    let a = spec_serialize_header(h);
    let b = packet::spec_header(h.size as int, h.code, h.domain);
    assert(forall|i: int| 0 <= i < 7 ==> a[i] == b[i]);
    assert(read32(a, 0) == read32(b, 0));
    assert(read16(a, 4) == read16(b, 4));
}

/// What is wrong with a packet that a program hands over for sending.
#[derive(Clone, Copy, Debug, PartialEq, Eq, Structural)]
pub enum PacketError {
    /// The packet is shorter than a header or longer than the largest packet.
    LengthOutOfBounds,
    /// The size field is not the packet's length.
    SizeMismatch,
    /// The domain is not one that the operation sends.
    WrongDomain,
}

/// What `check_packet` finds wrong with a packet, if anything.
pub open spec fn spec_check_packet(data: Seq<u8>, call: bool) -> Option<PacketError> {
    if data.len() < HEADER_SIZE || data.len() > MAX_SIZE {
        Some(PacketError::LengthOutOfBounds)
    } else if read32(data, 0) != data.len() {
        Some(PacketError::SizeMismatch)
    } else if call && data[6] != DOMAIN_CALL {
        Some(PacketError::WrongDomain)
    } else if !call && data[6] != DOMAIN_FLOW && data[6] != DOMAIN_DATA {
        Some(PacketError::WrongDomain)
    } else {
        None
    }
}

/// Checks a packet that is handed over whole: a call packet, or else a
/// packet of a stream.  Its length is in bounds, its size field is its
/// length, and its domain fits.
pub fn check_packet(data: &Vec<u8>, call: bool) -> (r: Result<Header, PacketError>)
    ensures
        match r {
            Ok(h) => spec_check_packet(data@, call).is_none() && h == spec_deserialize_header(
                data@,
            ),
            Err(e) => spec_check_packet(data@, call) == Some(e),
        },
{
    if data.len() < HEADER_SIZE || data.len() > MAX_SIZE {
        return Err(PacketError::LengthOutOfBounds);
    }
    let header = deserialize_header(data);
    if header.size as usize != data.len() {
        return Err(PacketError::SizeMismatch);
    }
    if call {
        if header.domain != DOMAIN_CALL {
            return Err(PacketError::WrongDomain);
        }
    } else if header.domain != DOMAIN_FLOW && header.domain != DOMAIN_DATA {
        return Err(PacketError::WrongDomain);
    }
    Ok(header)
}

/// Service state as the registry reports it.
#[derive(Clone, Copy, Debug, PartialEq, Eq, Structural)]
pub struct ServiceState {
    pub code: i16,
    pub flags: u8,
}

impl ServiceState {
    pub fn avail(&self) -> (r: bool)
        ensures
            r == crate::registry::flag_avail(self.flags),
    {
        (self.flags & packet::SERVICE_STATE_AVAIL) != 0
    }
}

/// Set in the flags of a host call that may wait for something to receive.
pub const IO_RECV_WAIT: u32 = 0x1;

/// The flags of a host call: it may wait if nothing is to be sent and no task
/// was notified, or if a packet was received in part.
pub fn io_flags(send_queue_empty: bool, no_task_notified: bool, received: usize) -> (r: u32)
    ensures
        r == (if (send_queue_empty && no_task_notified) || received > 0 {
            IO_RECV_WAIT
        } else {
            0
        }),
{
    if (send_queue_empty && no_task_notified) || received > 0 {
        IO_RECV_WAIT
    } else {
        0
    }
}

/// How many bytes a host call is to receive behind the `received` bytes that
/// are there of `total`.
pub fn recv_len(received: usize, total: usize) -> (r: usize)
    ensures
        r == (if received >= total {
            0
        } else {
            total - received
        }),
{
    if received >= total {
        0
    } else {
        total - received
    }
}

/// The size to receive up to, once a host call has returned: the packet's
/// size as soon as exactly its header is there, and what it was before.
pub fn next_recv_size(recv_size: usize, recv_buf: &Vec<u8>) -> (r: usize)
    ensures
        r == (if recv_size == HEADER_SIZE && recv_buf@.len() == HEADER_SIZE {
            read32(recv_buf@, 0) as usize
        } else {
            recv_size
        }),
{
    if recv_size == HEADER_SIZE && recv_buf.len() == HEADER_SIZE {
        deserialize_size(recv_buf)
    } else {
        recv_size
    }
}

/// Whether the host calls of one iteration are over: nothing was sent whole
/// by the last, and either nothing or a whole packet is received.
pub fn iteration_done(received: usize, recv_size: usize, sent: bool) -> (r: bool)
    ensures
        r == ((received == 0 || received == recv_size) && !sent),
{
    (received == 0 || received == recv_size) && !sent
}

/// Whether a received packet goes to the call or state receiver of its code
/// and domain: packets of streams do not.
pub fn has_receiver(header: &Header) -> (r: bool)
    ensures
        r == (header.domain != DOMAIN_FLOW && header.domain != DOMAIN_DATA),
{
    header.domain != DOMAIN_FLOW && header.domain != DOMAIN_DATA
}

/// The packet that asks the registry for one service: a services header for
/// one service, the name, and a zero byte.
pub open spec fn spec_discovery_request(name: Seq<u8>) -> Seq<u8> {
    spec_serialize_header(
        Header {
            size: (SERVICES_HEADER_SIZE + name.len() + 1) as u32,
            code: CODE_SERVICES,
            domain: DOMAIN_CALL,
            reserved0: 0,
        },
    ) + le16(1) + le16(0) + le32(0) + name + seq![0u8]
}

/// Builds the packet that asks the registry for one service.
pub fn discovery_request(name: &[u8]) -> (r: Vec<u8>)
    requires
        SERVICES_HEADER_SIZE + name@.len() + 1 <= u32::MAX,
    ensures
        r@ == spec_discovery_request(name@),
{
    let size: usize = SERVICES_HEADER_SIZE + name.len() + 1;
    let mut req = serialize_services_header(&new_services_header(size, 1));
    req.extend_from_slice(name);
    req.push(0);
    assert(req@ =~= spec_discovery_request(name@));
    req
}

/// The state of the service that was registered at `index`, as the reply to
/// a discovery tells it; `None` if the reply does not reach that far.
pub fn discovered(resp: &Vec<u8>, index: usize) -> (r: Option<ServiceState>)
    requires
        index <= i16::MAX,
    ensures
        r == (if resp@.len() <= SERVICES_HEADER_SIZE + index {
            None
        } else {
            Some(ServiceState { code: index as i16, flags: resp@[SERVICES_HEADER_SIZE + index] })
        }),
{
    let offset: usize = SERVICES_HEADER_SIZE + index;
    if resp.len() <= offset {
        None
    } else {
        Some(ServiceState { code: index as i16, flags: resp[offset] })
    }
}

/// The flow packet that opens the way for a write to the origin: one item
/// for stream zero, with no increment.
pub open spec fn spec_origin_flow(code: i16) -> Seq<u8> {
    spec_serialize_header(
        Header {
            size: (FLOW_HEADER_SIZE + FLOW_SIZE) as u32,
            code,
            domain: DOMAIN_FLOW,
            reserved0: 0,
        },
    ) + le32(0) + le32(0)
}

/// The data packet of a write to the origin, on stream zero.
pub open spec fn spec_origin_data(code: i16, data: Seq<u8>) -> Seq<u8> {
    spec_serialize_header(
        Header {
            size: (DATA_HEADER_SIZE + data.len()) as u32,
            code,
            domain: DOMAIN_DATA,
            reserved0: 0,
        },
    ) + le32(0) + le32(0) + data
}

/// Builds the two packets of a write to the origin: the flow packet, and the
/// data packet to send after it.
pub fn origin_write(code: i16, data: &[u8]) -> (r: (Vec<u8>, Vec<u8>))
    requires
        DATA_HEADER_SIZE + data@.len() <= u32::MAX,
    ensures
        r.0@ == spec_origin_flow(code),
        r.1@ == spec_origin_data(code, data@),
{
    let mut flow = serialize_header(&new_flow_header(FLOW_HEADER_SIZE + FLOW_SIZE, code));
    let item = serialize_flow(&Flow { id: 0, increment: 0 });
    flow.extend_from_slice(item.as_slice());
    assert(flow@ =~= spec_origin_flow(code));
    let mut buf = serialize_data_header(&new_data_header(DATA_HEADER_SIZE + data.len(), code, 0));
    buf.extend_from_slice(data);
    assert(buf@ =~= spec_origin_data(code, data@));
    (flow, buf)
}

} // verus!
