//! Packet framing: fixed little-endian headers and alignment arithmetic.

use vstd::prelude::*;

verus! {

/// Size of the generic packet header.
pub const HEADER_SIZE: usize = 8;

/// Size of one entry of a flow packet.
pub const FLOW_SIZE: usize = 8;

/// Size of the header of a data packet.
pub const DATA_HEADER_SIZE: usize = HEADER_SIZE + 8;

/// Size of the header of a registry packet.
pub const SERVICES_HEADER_SIZE: usize = HEADER_SIZE + 2;

/// Largest packet the host delivers or accepts.
pub const MAX_PACKET_SIZE: usize = 65536;

pub type Code = i16;

/// The code of the service registry itself.
pub const CODE_SERVICES: Code = -1;

pub type Domain = u8;

pub const DOMAIN_CALL: Domain = 0;

pub const DOMAIN_INFO: Domain = 1;

pub const DOMAIN_FLOW: Domain = 2;

pub const DOMAIN_DATA: Domain = 3;

pub type StreamId = i32;

pub type Note = i32;

pub type ServiceStateFlags = u8;

/// Bit 0 of a service's flags byte: the service is available.
pub const SERVICE_STATE_AVAIL: ServiceStateFlags = 0x1;

/// Every packet is padded to a multiple of this on the wire.
pub const ALIGNMENT: usize = 8;

/// The smallest multiple of eight that is at least `size`.
pub open spec fn spec_align(size: int) -> int {
    (size + 7) / 8 * 8
}

/// The number of padding bytes that follow `size` bytes on the wire.
pub open spec fn spec_pad_len(size: int) -> int {
    spec_align(size) - size
}

/// The two's complement bit pattern of a 16-bit signed value.
pub open spec fn i16_bits(x: i16) -> int {
    if x >= 0 {
        x as int
    } else {
        x + 0x1_0000
    }
}

/// The signed value of a 16-bit pattern.
pub open spec fn bits_i16(u: int) -> i16 {
    if u < 0x8000 {
        u as i16
    } else {
        (u - 0x1_0000) as i16
    }
}

/// The two's complement bit pattern of a 32-bit signed value.
pub open spec fn i32_bits(x: i32) -> int {
    if x >= 0 {
        x as int
    } else {
        x + 0x1_0000_0000
    }
}

/// The signed value of a 32-bit pattern.
pub open spec fn bits_i32(u: int) -> i32 {
    if u < 0x8000_0000 {
        u as i32
    } else {
        (u - 0x1_0000_0000) as i32
    }
}

/// The two bytes that hold `x`, least significant first.
pub open spec fn le16(x: int) -> Seq<u8> {
    seq![(x % 256) as u8, (x / 256 % 256) as u8]
}

/// The four bytes that hold `x`, least significant first.
pub open spec fn le32(x: int) -> Seq<u8> {
    seq![
        (x % 256) as u8,
        (x / 256 % 256) as u8,
        (x / 256 / 256 % 256) as u8,
        (x / 256 / 256 / 256 % 256) as u8,
    ]
}

/// The unsigned value of the two bytes of `p` that start at `at`.
pub open spec fn read16(p: Seq<u8>, at: int) -> int {
    p[at] + p[at + 1] * 256
}

/// The unsigned value of the four bytes of `p` that start at `at`.
pub open spec fn read32(p: Seq<u8>, at: int) -> int {
    p[at] + p[at + 1] * 256 + p[at + 2] * 0x1_0000 + p[at + 3] * 0x100_0000
}

/// The eight bytes of a generic header.
pub open spec fn spec_header(size: int, code: Code, domain: Domain) -> Seq<u8> {
    le32(size) + le16(i16_bits(code)) + seq![domain, 0u8]
}

/// The sixteen bytes of a data packet's header.
pub open spec fn spec_data_header(size: int, code: Code, id: StreamId, note: Note) -> Seq<u8> {
    spec_header(size, code, DOMAIN_DATA) + le32(i32_bits(id)) + le32(i32_bits(note))
}

/// The ten bytes of a registry packet's header.
pub open spec fn spec_services_header(size: int, count: u16) -> Seq<u8> {
    spec_header(size, CODE_SERVICES, DOMAIN_CALL) + le16(count as int)
}

/// The eight bytes of one flow entry.
pub open spec fn spec_flow_entry(id: StreamId, increment: i32) -> Seq<u8> {
    le32(i32_bits(id)) + le32(i32_bits(increment))
}

/// The size field of a packet.
pub open spec fn spec_size(p: Seq<u8>) -> int {
    read32(p, 0)
}

/// The code field of a packet.
pub open spec fn spec_code(p: Seq<u8>) -> Code {
    bits_i16(read16(p, 4))
}

/// The domain field of a packet.
pub open spec fn spec_domain(p: Seq<u8>) -> Domain {
    p[6]
}

/// The last header byte: the position, within the service's reply queue, of
/// the call that a reply answers.
pub open spec fn spec_index(p: Seq<u8>) -> int {
    p[7] as int
}

/// The number of whole flow entries that follow the header.
pub open spec fn spec_flow_count(p: Seq<u8>) -> int {
    (p.len() - HEADER_SIZE) / (FLOW_SIZE as int)
}

/// The stream id of flow entry `index`.
pub open spec fn spec_flow_id(p: Seq<u8>, index: int) -> StreamId {
    bits_i32(read32(p, HEADER_SIZE + FLOW_SIZE * index))
}

/// The increment of flow entry `index`.
pub open spec fn spec_flow_increment(p: Seq<u8>, index: int) -> i32 {
    bits_i32(read32(p, HEADER_SIZE + FLOW_SIZE * index + 4))
}

/// The stream id of a data packet.
pub open spec fn spec_data_id(p: Seq<u8>) -> StreamId {
    bits_i32(read32(p, HEADER_SIZE as int))
}

/// The note of a data packet.
pub open spec fn spec_data_note(p: Seq<u8>) -> Note {
    bits_i32(read32(p, HEADER_SIZE + 4))
}

/// The service count of a registry packet.
pub open spec fn spec_service_count(p: Seq<u8>) -> int {
    read16(p, HEADER_SIZE as int)
}

/// The flags bytes of a registry packet, one per service.
pub open spec fn spec_service_states(p: Seq<u8>) -> Seq<u8> {
    p.subrange(SERVICES_HEADER_SIZE as int, SERVICES_HEADER_SIZE + spec_service_count(p))
}

/// One entry of a flow packet.
pub struct Flow {
    pub id: StreamId,
    pub increment: i32,
}

/// Rounds a byte count up to the packet alignment.
pub fn align(size: usize) -> (r: usize)
    requires
        size + 7 <= usize::MAX,
    ensures
        r == spec_align(size as int),
{
    let mask: usize = ALIGNMENT - 1;
    let sum: usize = size + mask;
    assert(sum & !7usize == sum / 8 * 8) by (bit_vector);
    sum & !mask
}

/// The number of zero bytes that pad `size` bytes to the alignment.
pub fn pad_len(size: usize) -> (r: isize)
    requires
        size + 7 <= usize::MAX,
    ensures
        r == spec_pad_len(size as int),
        0 <= r < 8,
{
    (align(size) - size) as isize
}

fn put16(p: &mut [u8], at: usize, x: u16)
    requires
        at + 2 <= old(p)@.len(),
    ensures
        final(p)@ == old(p)@.subrange(0, at as int) + le16(x as int) + old(p)@.subrange(
            at + 2,
            old(p)@.len() as int,
        ),
{
    p[at] = (x % 256) as u8;
    p[at + 1] = (x / 256) as u8;
    assert(p@ =~= old(p)@.subrange(0, at as int) + le16(x as int) + old(p)@.subrange(
        at + 2,
        old(p)@.len() as int,
    ));
}

fn put32(p: &mut [u8], at: usize, x: u32)
    requires
        at + 4 <= old(p)@.len(),
    ensures
        final(p)@ == old(p)@.subrange(0, at as int) + le32(x as int) + old(p)@.subrange(
            at + 4,
            old(p)@.len() as int,
        ),
{
    p[at] = (x % 256) as u8;
    p[at + 1] = (x / 256 % 256) as u8;
    p[at + 2] = (x / 256 / 256 % 256) as u8;
    p[at + 3] = (x / 256 / 256 / 256) as u8;
    assert(p@ =~= old(p)@.subrange(0, at as int) + le32(x as int) + old(p)@.subrange(
        at + 4,
        old(p)@.len() as int,
    ));
}

fn get16(p: &[u8], at: usize) -> (r: u16)
    requires
        at + 2 <= p@.len(),
    ensures
        r == read16(p@, at as int),
{
    p[at] as u16 + p[at + 1] as u16 * 256
}

fn get32(p: &[u8], at: usize) -> (r: u32)
    requires
        at + 4 <= p@.len(),
    ensures
        r == read32(p@, at as int),
{
    p[at] as u32 + p[at + 1] as u32 * 256 + p[at + 2] as u32 * 0x1_0000 + p[at + 3] as u32
        * 0x100_0000
}

fn code_bits(code: Code) -> (r: u16)
    ensures
        r == i16_bits(code),
{
    if code >= 0 {
        code as u16
    } else {
        (code as i32 + 0x1_0000) as u16
    }
}

fn word_bits(x: i32) -> (r: u32)
    ensures
        r == i32_bits(x),
{
    if x >= 0 {
        x as u32
    } else {
        (x as i64 + 0x1_0000_0000) as u32
    }
}

fn bits_code(u: u16) -> (r: Code)
    ensures
        r == bits_i16(u as int),
{
    if u < 0x8000 {
        u as i16
    } else {
        (u as i32 - 0x1_0000) as i16
    }
}

fn bits_word(u: u32) -> (r: i32)
    ensures
        r == bits_i32(u as int),
{
    if u < 0x8000_0000 {
        u as i32
    } else {
        (u as i64 - 0x1_0000_0000) as i32
    }
}

/// Reads the signed 16-bit value at `at`.
pub fn read_i16(p: &[u8], at: usize) -> (r: i16)
    requires
        at + 2 <= p@.len(),
    ensures
        r == bits_i16(read16(p@, at as int)),
{
    bits_code(get16(p, at))
}

/// Reads the unsigned 16-bit value at `at`.
pub fn read_u16(p: &[u8], at: usize) -> (r: u16)
    requires
        at + 2 <= p@.len(),
    ensures
        r == read16(p@, at as int),
{
    get16(p, at)
}

/// Reads the signed 32-bit value at `at`.
pub fn read_i32(p: &[u8], at: usize) -> (r: i32)
    requires
        at + 4 <= p@.len(),
    ensures
        r == bits_i32(read32(p@, at as int)),
{
    bits_word(get32(p, at))
}

/// Writes a generic header into the first eight bytes of `p`.
pub fn header_into(p: &mut [u8], size: usize, code: Code, domain: Domain)
    requires
        old(p)@.len() >= HEADER_SIZE,
        size <= u32::MAX,
    ensures
        final(p)@ == spec_header(size as int, code, domain) + old(p)@.subrange(
            HEADER_SIZE as int,
            old(p)@.len() as int,
        ),
{
    put32(p, 0, size as u32);
    put16(p, 4, code_bits(code));
    p[6] = domain;
    p[7] = 0;
    assert(p@ =~= spec_header(size as int, code, domain) + old(p)@.subrange(
        HEADER_SIZE as int,
        old(p)@.len() as int,
    ));
}

/// Reads the size field.
pub fn size(p: &[u8]) -> (r: usize)
    requires
        p@.len() >= 4,
    ensures
        r == spec_size(p@),
{
    get32(p, 0) as usize
}

/// Reads the code field.
pub fn code(p: &[u8]) -> (r: Code)
    requires
        p@.len() >= 6,
    ensures
        r == spec_code(p@),
{
    bits_code(get16(p, 4))
}

/// Reads the domain field.
pub fn domain(p: &[u8]) -> (r: Domain)
    requires
        p@.len() >= 7,
    ensures
        r == spec_domain(p@),
{
    p[6]
}

/// Reads the reply position that the last header byte carries.
pub fn index(p: &[u8]) -> (r: usize)
    requires
        p@.len() >= HEADER_SIZE,
    ensures
        r == spec_index(p@),
{
    p[7] as usize
}

/// The number of entries of a flow packet.
pub fn flow_count(p: &[u8]) -> (r: usize)
    requires
        p@.len() >= HEADER_SIZE,
    ensures
        r == spec_flow_count(p@),
{
    (p.len() - HEADER_SIZE) / FLOW_SIZE
}

/// Writes flow entry `index` of a flow packet.
pub fn flow_into(p: &mut [u8], index: usize, id: StreamId, increment: i32)
    requires
        HEADER_SIZE + FLOW_SIZE * index + FLOW_SIZE <= old(p)@.len(),
    ensures
        final(p)@ == old(p)@.subrange(0, HEADER_SIZE + FLOW_SIZE * index) + spec_flow_entry(
            id,
            increment,
        ) + old(p)@.subrange(
            HEADER_SIZE + FLOW_SIZE * index + FLOW_SIZE,
            old(p)@.len() as int,
        ),
{
    let len: usize = p.len();
    let at: usize = HEADER_SIZE + FLOW_SIZE * index;
    assert(at + FLOW_SIZE <= len);
    put32(p, at, word_bits(id));
    put32(p, at + 4, word_bits(increment));
    assert(p@ =~= old(p)@.subrange(0, at as int) + spec_flow_entry(id, increment)
        + old(p)@.subrange(at + FLOW_SIZE, old(p)@.len() as int));
}

/// Reads flow entry `index` of a flow packet.
pub fn flow(p: &[u8], index: usize) -> (r: Flow)
    requires
        HEADER_SIZE + FLOW_SIZE * index + FLOW_SIZE <= p@.len(),
    ensures
        r.id == spec_flow_id(p@, index as int),
        r.increment == spec_flow_increment(p@, index as int),
{
    let len: usize = p.len();
    let at: usize = HEADER_SIZE + FLOW_SIZE * index;
    assert(at + FLOW_SIZE <= len);
    Flow { id: bits_word(get32(p, at)), increment: bits_word(get32(p, at + 4)) }
}

/// Writes a data packet's header into the first sixteen bytes of `p`.
pub fn data_header_into(p: &mut [u8], size: usize, code: Code, id: StreamId, note: Note)
    requires
        old(p)@.len() >= DATA_HEADER_SIZE,
        size <= u32::MAX,
    ensures
        final(p)@ == spec_data_header(size as int, code, id, note) + old(p)@.subrange(
            DATA_HEADER_SIZE as int,
            old(p)@.len() as int,
        ),
{
    header_into(p, size, code, DOMAIN_DATA);
    put32(p, HEADER_SIZE, word_bits(id));
    put32(p, HEADER_SIZE + 4, word_bits(note));
    assert(p@ =~= spec_data_header(size as int, code, id, note) + old(p)@.subrange(
        DATA_HEADER_SIZE as int,
        old(p)@.len() as int,
    ));
}

/// Reads the stream id of a data packet.
pub fn data_id(p: &[u8]) -> (r: StreamId)
    requires
        p@.len() >= HEADER_SIZE + 4,
    ensures
        r == spec_data_id(p@),
{
    bits_word(get32(p, HEADER_SIZE))
}

/// Reads the note of a data packet.
pub fn data_note(p: &[u8]) -> (r: Note)
    requires
        p@.len() >= DATA_HEADER_SIZE,
    ensures
        r == spec_data_note(p@),
{
    bits_word(get32(p, HEADER_SIZE + 4))
}

/// Writes a registry packet's header into the first ten bytes of `p`.
pub fn services_header_into(p: &mut [u8], size: usize, count: u16)
    requires
        old(p)@.len() >= SERVICES_HEADER_SIZE,
        size <= u32::MAX,
    ensures
        final(p)@ == spec_services_header(size as int, count) + old(p)@.subrange(
            SERVICES_HEADER_SIZE as int,
            old(p)@.len() as int,
        ),
{
    header_into(p, size, CODE_SERVICES, DOMAIN_CALL);
    put16(p, HEADER_SIZE, count);
    assert(p@ =~= spec_services_header(size as int, count) + old(p)@.subrange(
        SERVICES_HEADER_SIZE as int,
        old(p)@.len() as int,
    ));
}

/// Reads the service count of a registry packet.
pub fn service_count(p: &[u8]) -> (r: usize)
    requires
        p@.len() >= SERVICES_HEADER_SIZE,
    ensures
        r == spec_service_count(p@),
{
    get16(p, HEADER_SIZE) as usize
}

/// The flags bytes of a registry packet.
pub fn service_states<'a>(p: &'a [u8]) -> (r: &'a [ServiceStateFlags])
    requires
        p@.len() >= SERVICES_HEADER_SIZE,
        SERVICES_HEADER_SIZE + spec_service_count(p@) <= p@.len(),
    ensures
        r@ == spec_service_states(p@),
{
    let count: u16 = get16(p, HEADER_SIZE);
    &p[SERVICES_HEADER_SIZE..SERVICES_HEADER_SIZE + count as usize]
}

proof fn lemma_read16(p: Seq<u8>, at: int, x: int)
    requires
        0 <= x < 0x1_0000,
        0 <= at,
        at + 2 <= p.len(),
        p[at] == le16(x)[0],
        p[at + 1] == le16(x)[1],
    ensures
        read16(p, at) == x,
{
    let q1 = x / 256;
    assert(x == 256 * q1 + x % 256);
    assert(0 <= q1 < 256);
    assert(q1 % 256 == q1);
    assert(p[at] as int == x % 256);
    assert(p[at + 1] as int == q1);
}

proof fn lemma_read32(p: Seq<u8>, at: int, x: int)
    requires
        0 <= x < 0x1_0000_0000,
        0 <= at,
        at + 4 <= p.len(),
        p[at] == le32(x)[0],
        p[at + 1] == le32(x)[1],
        p[at + 2] == le32(x)[2],
        p[at + 3] == le32(x)[3],
    ensures
        read32(p, at) == x,
{
    let q1 = x / 256;
    let q2 = q1 / 256;
    let q3 = q2 / 256;
    assert(x == 256 * q1 + x % 256);
    assert(q1 == 256 * q2 + q1 % 256);
    assert(q2 == 256 * q3 + q2 % 256);
    assert(0 <= q3 < 256);
    assert(q3 % 256 == q3);
    assert(p[at] as int == x % 256);
    assert(p[at + 1] as int == q1 % 256);
    assert(p[at + 2] as int == q2 % 256);
    assert(p[at + 3] as int == q3);
}

/// Decoding an encoded generic header gives back the size, code and domain,
/// and a reply position of zero.
pub proof fn lemma_header_round_trip(size: u32, code: Code, domain: Domain)
    ensures
        spec_header(size as int, code, domain).len() == HEADER_SIZE,
        spec_size(spec_header(size as int, code, domain)) == size,
        spec_code(spec_header(size as int, code, domain)) == code,
        spec_domain(spec_header(size as int, code, domain)) == domain,
        spec_index(spec_header(size as int, code, domain)) == 0,
{
    let p = spec_header(size as int, code, domain);
    lemma_read32(p, 0, size as int);
    lemma_read16(p, 4, i16_bits(code));
}

/// Decoding an encoded data header gives back every field.
pub proof fn lemma_data_header_round_trip(size: u32, code: Code, id: StreamId, note: Note)
    ensures
        spec_data_header(size as int, code, id, note).len() == DATA_HEADER_SIZE,
        spec_size(spec_data_header(size as int, code, id, note)) == size,
        spec_code(spec_data_header(size as int, code, id, note)) == code,
        spec_domain(spec_data_header(size as int, code, id, note)) == DOMAIN_DATA,
        spec_data_id(spec_data_header(size as int, code, id, note)) == id,
        spec_data_note(spec_data_header(size as int, code, id, note)) == note,
{
    let p = spec_data_header(size as int, code, id, note);
    lemma_header_round_trip(size, code, DOMAIN_DATA);
    lemma_read32(p, 0, size as int);
    lemma_read16(p, 4, i16_bits(code));
    lemma_read32(p, 8, i32_bits(id));
    lemma_read32(p, 12, i32_bits(note));
}

/// Decoding an encoded registry header gives back the size and the count, and
/// names the registry's code and the call domain.
pub proof fn lemma_services_header_round_trip(size: u32, count: u16)
    ensures
        spec_services_header(size as int, count).len() == SERVICES_HEADER_SIZE,
        spec_size(spec_services_header(size as int, count)) == size,
        spec_code(spec_services_header(size as int, count)) == CODE_SERVICES,
        spec_domain(spec_services_header(size as int, count)) == DOMAIN_CALL,
        spec_service_count(spec_services_header(size as int, count)) == count,
{
    let p = spec_services_header(size as int, count);
    lemma_header_round_trip(size, CODE_SERVICES, DOMAIN_CALL);
    lemma_read32(p, 0, size as int);
    lemma_read16(p, 4, i16_bits(CODE_SERVICES));
    lemma_read16(p, 8, count as int);
}

/// A flow entry written behind a header is read back unchanged, at any
/// position.
pub proof fn lemma_flow_round_trip(prefix: Seq<u8>, index: nat, id: StreamId, increment: i32)
    requires
        prefix.len() == HEADER_SIZE + FLOW_SIZE * index,
    ensures
        spec_flow_id(prefix + spec_flow_entry(id, increment), index as int) == id,
        spec_flow_increment(prefix + spec_flow_entry(id, increment), index as int) == increment,
        spec_flow_count(prefix + spec_flow_entry(id, increment)) == index + 1,
{
    let p = prefix + spec_flow_entry(id, increment);
    let at = HEADER_SIZE + FLOW_SIZE * index;
    lemma_read32(p, at, i32_bits(id));
    lemma_read32(p, at + 4, i32_bits(increment));
}

/// Alignment never shrinks a size, adds fewer than eight bytes, yields a
/// multiple of eight, and changes nothing when applied again.
pub proof fn lemma_align(size: nat)
    ensures
        spec_align(size as int) >= size,
        spec_align(size as int) < size + ALIGNMENT,
        spec_align(size as int) % 8 == 0,
        spec_align(spec_align(size as int)) == spec_align(size as int),
        0 <= spec_pad_len(size as int) < ALIGNMENT,
{
}

} // verus!
