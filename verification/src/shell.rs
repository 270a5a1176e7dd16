//! Access the host system.

use crate::error::ErrorCode;
use crate::packet;
use crate::packet::{bits_i16, bits_i32, read16, read32};
use vstd::prelude::*;

verus! {

#[derive(Clone, Copy, Debug, PartialEq, Eq, Structural)]
pub enum ErrorKind {
    Other,
    Quota,
    User,
    WorkDir,
    Executable,
}

#[derive(Clone, Copy, Debug, PartialEq, Eq, Structural)]
pub struct Error {
    pub code: i16,
}

impl Error {
    pub fn new(code: i16) -> (r: Self)
        ensures
            r.code == code,
    {
        Error { code }
    }

    pub open spec fn spec_kind(&self) -> ErrorKind {
        if self.code == 1 {
            ErrorKind::Quota
        } else if self.code == 2 {
            ErrorKind::User
        } else if self.code == 3 {
            ErrorKind::WorkDir
        } else if self.code == 4 {
            ErrorKind::Executable
        } else {
            ErrorKind::Other
        }
    }

    pub fn kind(&self) -> (r: ErrorKind)
        ensures
            r == self.spec_kind(),
    {
        match self.code {
            1 => ErrorKind::Quota,
            2 => ErrorKind::User,
            3 => ErrorKind::WorkDir,
            4 => ErrorKind::Executable,
            _ => ErrorKind::Other,
        }
    }

    pub fn as_i16(&self) -> (r: i16)
        ensures
            r == self.code,
    {
        self.code
    }
}

impl ErrorCode for Error {
    open spec fn raw(&self) -> i16 {
        self.code
    }

    fn as_i16(&self) -> (r: i16) {
        self.code
    }
}

/// What the reply to a spawn call holds.
#[derive(Clone, Copy, Debug, PartialEq, Eq, Structural)]
pub struct SpawnReply {
    /// The id of the input stream that was opened for the command's output,
    /// if one was.  It is to be opened on this side too, also where the
    /// command failed.
    pub id: Option<i32>,
    /// Why the command was not started; zero if it was.
    pub error: i16,
}

impl SpawnReply {
    /// Whether the command runs: a stream was opened, and no error is
    /// reported.
    pub open spec fn spec_ok(&self) -> bool {
        self.id.is_some() && self.error == 0
    }

    pub fn is_ok(&self) -> (r: bool)
        ensures
            r == self.spec_ok(),
    {
        self.id.is_some() && self.error == 0
    }
}

/// What the reply to a spawn call says.
pub open spec fn spec_spawn_reply(reply: Seq<u8>) -> SpawnReply {
    SpawnReply {
        id: if bits_i32(read32(reply, 4)) >= 0 {
            Some(bits_i32(read32(reply, 4)))
        } else {
            None
        },
        error: bits_i16(read16(reply, 0)),
    }
}

/// Reads the reply to a spawn call.
pub fn spawn_reply(reply: &[u8]) -> (r: SpawnReply)
    requires
        reply@.len() >= 8,
    ensures
        r == spec_spawn_reply(reply@),
{
    let error: i16 = packet::read_i16(reply, 0);
    let id: i32 = packet::read_i32(reply, 4);
    SpawnReply {
        id: if id >= 0 {
            Some(id)
        } else {
            None
        },
        error,
    }
}

} // verus!
