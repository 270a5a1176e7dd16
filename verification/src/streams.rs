//! The table of streams: each with four half-close flags, its credit, and the
//! tasks that wait on it.

use crate::packet::{Code, StreamId};
use crate::task::Waker;
use vstd::prelude::*;

verus! {

pub type StreamFlags = u8;

/// This side still sends flow packets.
pub const STREAM_SELF_FLOW: StreamFlags = 1;

/// This side still sends data.
pub const STREAM_SELF_DATA: StreamFlags = 2;

/// The peer may still send data.
pub const STREAM_PEER_DATA: StreamFlags = 4;

/// The peer may still grant credit.
pub const STREAM_PEER_FLOW: StreamFlags = 8;

/// All four flags.
pub const STREAM_ALL: StreamFlags = 15;

/// The largest credit window, and the largest subscription.
pub const MAX_CREDIT: usize = 0x7fff_ffff;

/// What a receiver has to pick up: nothing, a task to wake when something
/// comes, or the offset of a packet in the receive buffer.
#[derive(Clone, Copy, Debug, PartialEq, Eq, Structural)]
pub enum Recv {
    Empty,
    Wake(Waker),
    Offset(usize),
}

impl Recv {
    /// Takes the waker out, if there is one; an offset stays.
    pub fn take_waker(&mut self) -> (r: Option<Waker>)
        ensures
            match *old(self) {
                Recv::Wake(w) => r == Some(w) && *final(self) == Recv::Empty,
                _ => r.is_none() && *final(self) == *old(self),
            },
    {
        if let Recv::Wake(w) = *self {
            *self = Recv::Empty;
            return Some(w);
        }
        None
    }

    /// Takes out whatever is there.
    pub fn take(&mut self) -> (r: Self)
        ensures
            r == *old(self),
            *final(self) == Recv::Empty,
    {
        let r = *self;
        *self = Recv::Empty;
        r
    }
}

impl Default for Recv {
    fn default() -> (r: Self)
        ensures
            r == Recv::Empty,
    {
        Recv::Empty
    }
}

/// The waker that waits in a receive slot, if one does.
pub open spec fn waiting(recv: Recv) -> Option<Waker> {
    match recv {
        Recv::Wake(w) => Some(w),
        _ => None,
    }
}

/// `flags` without the flags of `how`.
pub open spec fn without(flags: StreamFlags, how: StreamFlags) -> StreamFlags {
    flags & !how
}

/// Facts about clearing flags: what is cleared is gone, what was not named
/// stays, and nothing else appears.
pub proof fn lemma_without(flags: StreamFlags, how: StreamFlags)
    by (bit_vector)
    ensures
        without(flags, how) & how == 0,
        without(flags, how) <= flags,
        flags <= 15 ==> without(flags, how) <= 15,
        flags & how <= how,
        flags & how <= flags,
        (flags & how) & flags == flags & how,
        forall|other: StreamFlags| #[trigger]
            (other & how) == 0 ==> without(flags, how) & other == flags & other,
        flags & how == 0 ==> without(flags, how) == flags,
        how == 0 ==> without(flags, how) == flags,
        (flags & how == how && how != 0) ==> without(flags, how) < flags,
{
}

/// A handle to a stream's state.
#[derive(Clone, Copy, Debug, PartialEq, Eq, Structural)]
pub struct Stream {
    pub slot: usize,
}

pub struct StreamState {
    pub code: Code,
    pub id: StreamId,
    pub flags: StreamFlags,
    pub recv: Recv,
    /// The note of the peer's last data packet: why it closed.
    pub recv_err: i32,
    /// The credit: how many bytes may be written before the peer grants more.
    pub writable: usize,
    pub writer: Option<Waker>,
    /// The last negative increment that the peer sent.
    pub write_err: i32,
    pub closers: Vec<Waker>,
    /// Whether the stream is in the table, where packets find it.
    pub listed: bool,
    /// The number of handles to this state.
    pub handles: usize,
}

impl StreamState {
    /// The id is not negative, the credit fits a window, and only the four
    /// flags occur.
    pub open spec fn wf(&self) -> bool {
        &&& self.id >= 0
        &&& self.writable <= MAX_CREDIT
        &&& self.flags <= STREAM_ALL
    }

    /// The state is in the table exactly while a flag is set.
    pub open spec fn settled(&self) -> bool {
        self.listed <==> self.flags != 0
    }

    pub fn new(code: Code, id: StreamId, flags: StreamFlags) -> (r: Self)
        requires
            id >= 0,
            flags <= STREAM_ALL,
        ensures
            r.wf(),
            r.code == code,
            r.id == id,
            r.flags == flags,
            r.recv == Recv::Empty,
            r.recv_err == 0,
            r.writable == 0,
            r.writer.is_none(),
            r.write_err == 0,
            r.closers@.len() == 0,
            !r.listed,
            r.handles == 0,
    {
        StreamState {
            code,
            id,
            flags,
            recv: Recv::Empty,
            recv_err: 0,
            writable: 0,
            writer: None,
            write_err: 0,
            closers: Vec::new(),
            listed: false,
            handles: 0,
        }
    }

    /// Clears the flags of `how`, which must all be set.
    pub fn clear_flags(&mut self, how: StreamFlags)
        requires
            old(self).wf(),
            old(self).flags & how == how,
        ensures
            final(self).wf(),
            final(self).flags == without(old(self).flags, how),
            final(self).code == old(self).code,
            final(self).id == old(self).id,
            final(self).recv == old(self).recv,
            final(self).recv_err == old(self).recv_err,
            final(self).writable == old(self).writable,
            final(self).writer == old(self).writer,
            final(self).write_err == old(self).write_err,
            final(self).closers == old(self).closers,
            final(self).listed == old(self).listed,
            final(self).handles == old(self).handles,
    {
        proof {
            lemma_without(self.flags, how);
        }
        self.flags = self.flags & !how;
    }

    /// Takes the stream out of the table if no flag is left.
    pub fn detach_closed(&mut self)
        requires
            old(self).wf(),
        ensures
            final(self).wf(),
            final(self).listed == (old(self).listed && old(self).flags != 0),
            final(self).flags == old(self).flags,
            final(self).code == old(self).code,
            final(self).id == old(self).id,
            final(self).recv == old(self).recv,
            final(self).recv_err == old(self).recv_err,
            final(self).writable == old(self).writable,
            final(self).writer == old(self).writer,
            final(self).write_err == old(self).write_err,
            final(self).closers == old(self).closers,
            final(self).handles == old(self).handles,
    {
        if self.flags == 0 {
            self.listed = false;
        }
    }
}

/// The table of streams.
pub struct Streams {
    pub slots: Vec<StreamState>,
}

impl Streams {
    /// Whether the table holds a stream with this key.
    pub open spec fn has(&self, code: Code, id: StreamId) -> bool {
        exists|i: int|
            0 <= i < self.slots@.len() && (#[trigger] self.slots@[i]).listed && self.slots@[i].code
                == code && self.slots@[i].id == id
    }

    /// Every state is in order, the table holds exactly the states with a
    /// flag set, no key is in it twice, and every stream belongs to one of the
    /// first `services` services.
    pub open spec fn wf(&self, services: int) -> bool {
        &&& forall|i: int|
            0 <= i < self.slots@.len() ==> (#[trigger] self.slots@[i]).wf()
                && self.slots@[i].settled()
                && 0 <= self.slots@[i].code < services
        &&& forall|i: int, j: int|
            0 <= i < j < self.slots@.len() && (#[trigger] self.slots@[i]).listed && (
            #[trigger] self.slots@[j]).listed ==> self.slots@[i].code != self.slots@[j].code
                || self.slots@[i].id != self.slots@[j].id
    }

    /// The slot of the stream with this key in the table.
    pub open spec fn listed_slot(&self, code: Code, id: StreamId) -> Stream {
        Stream {
            slot: (choose|i: int|
                0 <= i < self.slots@.len() && (#[trigger] self.slots@[i]).listed
                    && self.slots@[i].code == code && self.slots@[i].id == id) as usize,
        }
    }

    /// The state of the stream with this key in the table.
    pub open spec fn listed_state(&self, code: Code, id: StreamId) -> StreamState {
        self.state(self.listed_slot(code, id))
    }

    /// No other slot holds the key of a stream that is in the table.
    pub proof fn lemma_listed(&self, code: Code, id: StreamId, s: Stream)
        requires
            exists|n: int| self.wf(n),
            self.valid(s),
            self.state(s).listed,
            self.state(s).code == code,
            self.state(s).id == id,
        ensures
            self.has(code, id),
            self.listed_slot(code, id) == s,
    {
        let t = self.listed_slot(code, id);
        assert(self.slots@[s.slot as int].listed);
        if t.slot != s.slot {
            if t.slot < s.slot {
                assert(self.slots@[t.slot as int].listed && self.slots@[s.slot as int].listed);
            } else {
                assert(self.slots@[s.slot as int].listed && self.slots@[t.slot as int].listed);
            }
        }
    }

    pub fn new() -> (r: Self)
        ensures
            r.slots@.len() == 0,
            forall|n: int| r.wf(n),
    {
        Streams { slots: Vec::new() }
    }

    /// Whether `s` names a state.
    pub open spec fn valid(&self, s: Stream) -> bool {
        s.slot < self.slots@.len()
    }

    /// The state that `s` names.
    pub open spec fn state(&self, s: Stream) -> StreamState {
        self.slots@[s.slot as int]
    }

    /// Finds the stream with this key in the table.
    pub fn find(&self, code: Code, id: StreamId) -> (r: Option<Stream>)
        ensures
            r.is_some() <==> self.has(code, id),
            match r {
                Some(s) => self.valid(s) && self.state(s).listed && self.state(s).code == code
                    && self.state(s).id == id,
                None => true,
            },
    {
        let mut i: usize = 0;
        while i < self.slots.len()
            invariant
                i <= self.slots@.len(),
                forall|k: int|
                    0 <= k < i ==> !((#[trigger] self.slots@[k]).listed
                        && self.slots@[k].code == code
                        && self.slots@[k].id == id),
            decreases self.slots@.len() - i,
        {
            if self.slots[i].listed && self.slots[i].code == code && self.slots[i].id == id {
                return Some(Stream { slot: i });
            }
            i += 1;
        }
        None
    }

    /// Whether the table holds a stream with this key.
    pub fn contains(&self, code: Code, id: StreamId) -> (r: bool)
        ensures
            r == self.has(code, id),
    {
        self.find(code, id).is_some()
    }
}

} // verus!
