//! Find other program instances.

use crate::error::ErrorCode;
use crate::packet;
use crate::packet::{bits_i16, read16};
use vstd::prelude::*;

verus! {

#[derive(Clone, Copy, Debug, PartialEq, Eq, Structural)]
pub enum ErrorKind {
    Other,
    NotRegistered,
}

#[derive(Clone, Copy, Debug, PartialEq, Eq, Structural)]
pub struct Error {
    pub code: i16,
}

impl Error {
    pub fn new(code: i16) -> (r: Self)
        ensures
            r.code == code,
    {
        Error { code }
    }

    pub open spec fn spec_kind(&self) -> ErrorKind {
        if self.code == 1 {
            ErrorKind::NotRegistered
        } else {
            ErrorKind::Other
        }
    }

    pub fn kind(&self) -> (r: ErrorKind)
        ensures
            r == self.spec_kind(),
    {
        match self.code {
            1 => ErrorKind::NotRegistered,
            _ => ErrorKind::Other,
        }
    }

    pub fn as_i16(&self) -> (r: i16)
        ensures
            r == self.code,
    {
        self.code
    }
}

impl ErrorCode for Error {
    open spec fn raw(&self) -> i16 {
        self.code
    }

    fn as_i16(&self) -> (r: i16) {
        self.code
    }
}

/// The name of the peer group of the principal's index.
pub fn group_name() -> (r: &'static str)
    ensures
        r@ == "index/principal"@,
{
    "index/principal"
}

/// The names that `count` entries hold, from `at`: each a length byte and
/// that many bytes.  `None` where the reply ends before them.
pub open spec fn spec_names(reply: Seq<u8>, at: int, count: nat) -> Option<Seq<Seq<u8>>>
    decreases count,
{
    if count == 0 {
        Some(Seq::empty())
    } else if at < 0 || at >= reply.len() || at + 1 + reply[at] > reply.len() {
        None
    } else {
        match spec_names(reply, at + 1 + reply[at], (count - 1) as nat) {
            Some(rest) => Some(seq![reply.subrange(at + 1, at + 1 + reply[at])] + rest),
            None => None,
        }
    }
}

/// What the reply to an instances call says: the names of the instances, or
/// why there are none.  A reply that is too short for what it announces says
/// nothing, which is the error zero.
pub open spec fn spec_instances_reply(reply: Seq<u8>) -> Result<Seq<Seq<u8>>, Error> {
    if reply.len() < 4 {
        Err(Error { code: 0 })
    } else if bits_i16(read16(reply, 0)) != 0 {
        Err(Error { code: bits_i16(read16(reply, 0)) })
    } else {
        match spec_names(reply, 4, read16(reply, 2) as nat) {
            Some(names) => Ok(names),
            None => Err(Error { code: 0 }),
        }
    }
}

/// The views of a list of byte strings.
pub open spec fn views(list: Seq<Vec<u8>>) -> Seq<Seq<u8>> {
    list.map_values(|v: Vec<u8>| v@)
}

/// Appending a list of names to a list names the concatenation.
proof fn lemma_names_step(reply: Seq<u8>, at: int, count: nat)
    requires
        count > 0,
        0 <= at < reply.len(),
        at + 1 + reply[at] <= reply.len(),
    ensures
        spec_names(reply, at, count) == match spec_names(
            reply,
            at + 1 + reply[at],
            (count - 1) as nat,
        ) {
            Some(rest) => Some(seq![reply.subrange(at + 1, at + 1 + reply[at])] + rest),
            None => None,
        },
{
}

/// Reads the reply to an instances call.
pub fn instances_reply(reply: &[u8]) -> (r: Result<Vec<Vec<u8>>, Error>)
    ensures
        match r {
            Ok(list) => spec_instances_reply(reply@) == Ok::<Seq<Seq<u8>>, Error>(views(list@)),
            Err(e) => spec_instances_reply(reply@) == Err::<Seq<Seq<u8>>, Error>(e),
        },
{
    if reply.len() < 4 {
        return Err(Error::new(0));
    }
    let error: i16 = packet::read_i16(reply, 0);
    if error != 0 {
        return Err(Error::new(error));
    }
    let count: usize = packet::read_u16(reply, 2) as usize;
    let mut list: Vec<Vec<u8>> = Vec::new();
    let mut at: usize = 4;
    let mut i: usize = 0;
    while i < count
        invariant
            i <= count,
            4 <= at <= reply@.len(),
            list@.len() == i,
            count == read16(reply@, 2),
            bits_i16(read16(reply@, 0)) == 0,
            // What is read and what is left make up the whole.
            spec_names(reply@, 4, count as nat) == match spec_names(
                reply@,
                at as int,
                (count - i) as nat,
            ) {
                Some(rest) => Some(views(list@) + rest),
                None => None,
            },
        decreases count - i,
    {
        if at >= reply.len() {
            assert(spec_names(reply@, at as int, (count - i) as nat).is_none());
            return Err(Error::new(0));
        }
        let size: usize = reply[at] as usize;
        if size > reply.len() - at - 1 {
            assert(spec_names(reply@, at as int, (count - i) as nat).is_none());
            return Err(Error::new(0));
        }
        let mut name: Vec<u8> = Vec::new();
        name.extend_from_slice(&reply[at + 1..at + 1 + size]);
        proof {
            lemma_names_step(reply@, at as int, (count - i) as nat);
            let rest = spec_names(reply@, at + 1 + size, (count - i - 1) as nat);
            assert(name@ =~= reply@.subrange(at + 1, at + 1 + size));
            assert(views(list@.push(name)) =~= views(list@) + seq![name@]);
            if rest.is_some() {
                assert(views(list@) + (seq![name@] + rest.unwrap()) =~= views(list@.push(name))
                    + rest.unwrap());
            }
        }
        list.push(name);
        at = at + 1 + size;
        i += 1;
    }
    proof {
        assert(views(list@) + Seq::<Seq<u8>>::empty() =~= views(list@));
    }
    Ok(list)
}

} // verus!
