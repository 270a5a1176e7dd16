//! Communicate with the invoker of the program instance.
//!
//! This can be thought of as standard I/O streams.

use crate::error::ErrorCode;
use crate::packet;
use crate::packet::{bits_i16, bits_i32, read16, read32};
use vstd::prelude::*;

verus! {

/// Reason for connection acceptance failure.
///
/// No reasons have been defined yet.
#[derive(Clone, Copy, Debug, PartialEq, Eq, Structural)]
pub struct AcceptError {
    pub code: i16,
}

impl AcceptError {
    pub fn new(code: i16) -> (r: Self)
        ensures
            r.code == code,
    {
        AcceptError { code }
    }

    pub fn as_i16(&self) -> (r: i16)
        ensures
            r == self.code,
    {
        self.code
    }
}

impl ErrorCode for AcceptError {
    open spec fn raw(&self) -> i16 {
        self.code
    }

    fn as_i16(&self) -> (r: i16) {
        self.code
    }
}

/// What the reply to an accept call says: the id of the new stream, or why
/// there is none.  A reply of fewer than eight bytes says nothing, which is
/// the error zero.
pub open spec fn spec_accept_reply(reply: Seq<u8>) -> Result<i32, AcceptError> {
    if reply.len() < 8 {
        Err(AcceptError { code: 0 })
    } else if bits_i16(read16(reply, 4)) != 0 {
        Err(AcceptError { code: bits_i16(read16(reply, 4)) })
    } else {
        Ok(bits_i32(read32(reply, 0)))
    }
}

/// Reads the reply to an accept call.
pub fn accept_reply(reply: &[u8]) -> (r: Result<i32, AcceptError>)
    ensures
        r == spec_accept_reply(reply@),
{
    if reply.len() < 8 {
        return Err(AcceptError::new(0));
    }
    let error: i16 = packet::read_i16(reply, 4);
    if error != 0 {
        return Err(AcceptError::new(error));
    }
    Ok(packet::read_i32(reply, 0))
}

} // verus!
