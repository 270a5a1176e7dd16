//! Communicate with other program instances.

use crate::error::ErrorCode;
use crate::packet;
use crate::packet::{bits_i16, bits_i32, read16, read32};
use crate::runtime::zeros;
use vstd::prelude::*;

verus! {

#[derive(Clone, Copy, Debug, PartialEq, Eq, Structural)]
pub enum ConnectErrorKind {
    Other,
    GroupNotFound,
    PeerNotFound,
    Singularity,
    AlreadyConnecting,
    AlreadyConnected,
}

#[derive(Clone, Copy, Debug, PartialEq, Eq, Structural)]
pub struct ConnectError {
    pub code: i16,
}

impl ConnectError {
    pub fn new(code: i16) -> (r: Self)
        ensures
            r.code == code,
    {
        ConnectError { code }
    }

    pub fn already_connecting() -> (r: Self)
        ensures
            r.code == 5,
    {
        Self::new(5)
    }

    pub open spec fn spec_kind(&self) -> ConnectErrorKind {
        if self.code == 2 {
            ConnectErrorKind::GroupNotFound
        } else if self.code == 3 {
            ConnectErrorKind::PeerNotFound
        } else if self.code == 4 {
            ConnectErrorKind::Singularity
        } else if self.code == 5 {
            ConnectErrorKind::AlreadyConnecting
        } else if self.code == 6 {
            ConnectErrorKind::AlreadyConnected
        } else {
            ConnectErrorKind::Other
        }
    }

    pub fn kind(&self) -> (r: ConnectErrorKind)
        ensures
            r == self.spec_kind(),
    {
        match self.code {
            2 => ConnectErrorKind::GroupNotFound,
            3 => ConnectErrorKind::PeerNotFound,
            4 => ConnectErrorKind::Singularity,
            5 => ConnectErrorKind::AlreadyConnecting,
            6 => ConnectErrorKind::AlreadyConnected,
            _ => ConnectErrorKind::Other,
        }
    }

    pub fn as_i16(&self) -> (r: i16)
        ensures
            r == self.code,
    {
        self.code
    }
}

impl ErrorCode for ConnectError {
    open spec fn raw(&self) -> i16 {
        self.code
    }

    fn as_i16(&self) -> (r: i16) {
        self.code
    }
}

/// Whether `b` starts with a name: a length byte and that many bytes.
pub open spec fn has_name(b: Seq<u8>) -> bool {
    b.len() >= 1 && 1 + b[0] <= b.len()
}

/// The name that `b` starts with.
pub open spec fn spec_name(b: Seq<u8>) -> Seq<u8> {
    b.subrange(1, 1 + b[0])
}

/// What follows the name that `b` starts with.
pub open spec fn spec_behind_name(b: Seq<u8>) -> Seq<u8> {
    b.subrange(1 + b[0], b.len() as int)
}

/// Splits `b` into the name that it starts with and what follows.
pub fn parse_name<'a>(b: &'a [u8]) -> (r: (&'a [u8], &'a [u8]))
    requires
        has_name(b@),
    ensures
        r.0@ == spec_name(b@),
        r.1@ == spec_behind_name(b@),
{
    let size: usize = b[0] as usize;
    let len: usize = b.len();
    (&b[1..1 + size], &b[1 + size..len])
}

/// A name as it stands in a packet: its length in one byte, then its bytes.
pub open spec fn spec_named(name: Seq<u8>) -> Seq<u8> {
    seq![name.len() as u8] + name
}

/// The content of a connect call: eight reserved bytes, then the names of
/// the group, of the peer and of the content type.
pub open spec fn spec_connect_request(group: Seq<u8>, peer: Seq<u8>, content_type: Seq<u8>) -> Seq<
    u8,
> {
    zeros(8) + spec_named(group) + spec_named(peer) + spec_named(content_type)
}

/// Builds the content of a connect call.
pub fn connect_request(group_name: &[u8], peer_name: &[u8], content_type: &[u8]) -> (r: Vec<u8>)
    requires
        group_name@.len() <= 255,
        peer_name@.len() <= 255,
        content_type@.len() <= 255,
    ensures
        r@ == spec_connect_request(group_name@, peer_name@, content_type@),
{
    let mut buf: Vec<u8> = Vec::new();
    buf.resize(8, 0u8);
    buf.push(group_name.len() as u8);
    buf.extend_from_slice(group_name);
    buf.push(peer_name.len() as u8);
    buf.extend_from_slice(peer_name);
    buf.push(content_type.len() as u8);
    buf.extend_from_slice(content_type);
    assert(buf@ =~= spec_connect_request(group_name@, peer_name@, content_type@));
    buf
}

/// What the reply to a connect call says: that the connection is being
/// made, or why not.  A reply of fewer than two bytes says nothing, which is
/// the error zero.
pub open spec fn spec_connect_reply(buf: Seq<u8>) -> Result<(), ConnectError> {
    if buf.len() < 2 {
        Err(ConnectError { code: 0 })
    } else if bits_i16(read16(buf, 0)) == 0 {
        Ok(())
    } else {
        Err(ConnectError { code: bits_i16(read16(buf, 0)) })
    }
}

/// Reads the reply to a connect call.  The error code one means that the
/// call itself was wrong.
pub fn connect_reply(buf: &[u8]) -> (r: Result<(), ConnectError>)
    ensures
        r == spec_connect_reply(buf@),
{
    if buf.len() < 2 {
        return Err(ConnectError::new(0));
    }
    let error: i16 = packet::read_i16(buf, 0);
    if error == 0 {
        Ok(())
    } else {
        Err(ConnectError::new(error))
    }
}

/// What an info packet of the peer service tells.
pub struct PeerInfo<'a> {
    /// The id of the stream to the peer; negative where a peer only asks for
    /// a connection.
    pub id: i32,
    pub group_name: &'a [u8],
    pub peer_name: &'a [u8],
    pub content_type: &'a [u8],
}

/// Whether `b` is a whole info packet of the peer service: an id, four
/// reserved bytes, and three names.
pub open spec fn is_peer_info(b: Seq<u8>) -> bool {
    &&& b.len() >= 8
    &&& has_name(b.skip(8))
    &&& has_name(spec_behind_name(b.skip(8)))
    &&& has_name(spec_behind_name(spec_behind_name(b.skip(8))))
}

/// Reads an info packet of the peer service; `None` if it is not whole.
pub fn peer_info<'a>(b: &'a [u8]) -> (r: Option<PeerInfo<'a>>)
    ensures
        r.is_some() <==> is_peer_info(b@),
        match r {
            Some(info) => {
                &&& info.id == bits_i32(read32(b@, 0))
                &&& info.group_name@ == spec_name(b@.skip(8))
                &&& info.peer_name@ == spec_name(spec_behind_name(b@.skip(8)))
                &&& info.content_type@ == spec_name(spec_behind_name(spec_behind_name(b@.skip(8))))
            },
            None => true,
        },
{
    let len: usize = b.len();
    if len < 8 {
        return None;
    }
    let id: i32 = packet::read_i32(b, 0);
    let rest = &b[8..len];
    assert(rest@ =~= b@.skip(8));
    if rest.len() < 1 || rest[0] as usize > rest.len() - 1 {
        return None;
    }
    let (group_name, rest) = parse_name(rest);
    if rest.len() < 1 || rest[0] as usize > rest.len() - 1 {
        return None;
    }
    let (peer_name, rest) = parse_name(rest);
    if rest.len() < 1 || rest[0] as usize > rest.len() - 1 {
        return None;
    }
    let (content_type, _) = parse_name(rest);
    Some(PeerInfo { id, group_name, peer_name, content_type })
}

} // verus!
