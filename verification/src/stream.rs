//! I/O streams: the handles by which a program receives from, writes to and
//! closes a stream.

use crate::error::Fault;
use crate::flow::{StreamCloseFuture, StreamRecvFuture, StreamWriteAllFuture, StreamWriteFuture};
use crate::packet::DATA_HEADER_SIZE;
use crate::process::Runtime;
use crate::streams::{
    Stream, StreamFlags, StreamState, STREAM_PEER_DATA, STREAM_PEER_FLOW, STREAM_SELF_DATA,
    STREAM_SELF_FLOW,
};
use vstd::prelude::*;

verus! {

/// Both halves of this side.
pub const STREAM_SELF: StreamFlags = 3;

/// Both halves of the peer.
pub const STREAM_PEER: StreamFlags = 12;

/// Data subscriber and receiver.
pub trait Recv {
    /// The stream that the handle is for; none once it was closed.
    spec fn stream(&self) -> Option<Stream>;

    /// Receive data packets repeatedly.  Returns the operation.
    ///
    /// The initial reception capacity determines the maximum data packet size
    /// which the first receptor invocation may receive.  Subsequent reception
    /// capacity is the sum of the unused capacity (subscribed minus received)
    /// and the number returned by the receptor.
    fn recv(&mut self, capacity: usize) -> (r: StreamRecvFuture)
        ensures
            final(self).stream() == old(self).stream(),
            r.wf(),
            r.s == old(self).stream(),
            r.unsubscribed == capacity,
            r.unreceived == 0,
            !r.flow_started,
    ;
}

/// Data writer.
pub trait Write {
    /// The stream that the handle is for; none once it was closed.
    spec fn stream(&self) -> Option<Stream>;

    /// Write part of a byte slice.  Returns the operation.
    fn write(&mut self, data: &[u8]) -> (r: StreamWriteFuture)
        requires
            DATA_HEADER_SIZE + data@.len() + 7 <= u32::MAX,
        ensures
            final(self).stream() == old(self).stream(),
            r.wf(),
            r.s == old(self).stream(),
            r.data@ == data@,
            r.note == 0,
            !r.writing,
    ;

    /// Write a whole byte slice.  Returns the operation.
    fn write_all(&mut self, data: &[u8]) -> (r: StreamWriteAllFuture)
        requires
            DATA_HEADER_SIZE + data@.len() + 7 <= u32::MAX,
        ensures
            final(self).stream() == old(self).stream(),
            r.wf(),
            r.inner.s == old(self).stream(),
            r.pending@ == data@,
            !r.inner.writing,
    ;
}

/// Stream closer.
pub trait Close {
    /// The stream that the handle is for; none once it was closed.
    spec fn stream(&self) -> Option<Stream>;

    /// The halves of this side that closing closes.
    spec fn closes(&self) -> StreamFlags;

    /// The halves of the peer that closing waits for.
    spec fn awaits(&self) -> StreamFlags;

    /// Close a stream.  Returns the operation, which takes the handle's
    /// stream with it.
    fn close(&mut self) -> (r: StreamCloseFuture)
        ensures
            final(self).stream().is_none(),
            r.s == old(self).stream(),
            r.how == old(self).closes(),
            r.wait == old(self).awaits(),
    ;
}

impl Runtime {
    /// The state after `extra` more handles to stream `s` were made.
    pub open spec fn shared(&self, before: &Runtime, s: Option<Stream>, extra: usize) -> bool {
        &&& self.core == before.core
        &&& self.recv_buf == before.recv_buf
        &&& self.resumed == before.resumed
        &&& match s {
            Some(s) => if before.streams.valid(s) {
                let st = before.streams.state(s);
                self.streams.slots@ == before.streams.slots@.update(
                    s.slot as int,
                    (StreamState {
                        handles: if st.handles + extra <= usize::MAX {
                            (st.handles + extra) as usize
                        } else {
                            usize::MAX
                        },
                        ..st
                    }),
                )
            } else {
                self.streams == before.streams
            },
            None => self.streams == before.streams,
        }
    }

    /// Counts `extra` more handles to a stream.  The state of a stream is
    /// kept while a handle to it is left.
    pub fn share_stream(&mut self, s: Option<Stream>, extra: usize)
        requires
            old(self).wf(),
        ensures
            final(self).wf(),
            final(self).core.registry_kept(&old(self).core),
            final(self).resumed == old(self).resumed,
            final(self).shared(old(self), s, extra),
    {
        if let Some(s) = s {
            if s.slot < self.streams.slots.len() {
                let handles: usize = self.streams.slots[s.slot].handles;
                self.streams.slots[s.slot].handles = if handles <= usize::MAX - extra {
                    handles + extra
                } else {
                    usize::MAX
                };
                proof {
                    assert(old(self).streams.slots@[s.slot as int].wf());
                    self.lemma_stream_touched(old(self), s);
                    let st = old(self).streams.state(s);
                    assert(self.streams.slots@ =~= old(self).streams.slots@.update(
                        s.slot as int,
                        (StreamState {
                            handles: if st.handles + extra <= usize::MAX {
                                (st.handles + extra) as usize
                            } else {
                                usize::MAX
                            },
                            ..st
                        }),
                    ));
                }
            }
        }
    }
}

/// Bidirectional stream.
pub struct RecvWriteStream {
    pub s: Option<Stream>,
}

/// Input stream.
pub struct RecvStream {
    pub s: Option<Stream>,
}

/// Input stream which can be closed asynchronously.
pub struct RecvOnlyStream {
    pub s: Option<Stream>,
}

/// Output stream.
pub struct WriteStream {
    pub s: Option<Stream>,
}

/// Output stream which can be closed asynchronously.
pub struct WriteOnlyStream {
    pub s: Option<Stream>,
}

/// Used to close associated `RecvOnlyStream` and/or `WriteOnlyStream`.
pub struct CloseStream {
    pub s: Option<Stream>,
    pub how: StreamFlags,
}

impl RecvWriteStream {
    pub fn new(s: Option<Stream>) -> (r: Self)
        ensures
            r.s == s,
    {
        RecvWriteStream { s }
    }

    /// Split the stream into unidirectional parts.
    pub fn split(self, rt: &mut Runtime) -> (r: (RecvStream, WriteStream))
        requires
            old(rt).wf(),
        ensures
            final(rt).wf(),
            final(rt).shared(old(rt), self.s, 1),
            r.0.s == self.s,
            r.1.s == self.s,
    {
        rt.share_stream(self.s, 1);
        (RecvStream::new(self.s), WriteStream::new(self.s))
    }

    /// Split the stream into unidirectional parts which can be closed
    /// asynchronously.  The single CloseStream closes both directions.
    pub fn split3(self, rt: &mut Runtime) -> (r: (RecvOnlyStream, WriteOnlyStream, CloseStream))
        requires
            old(rt).wf(),
        ensures
            final(rt).wf(),
            final(rt).shared(old(rt), self.s, 2),
            r.0.s == self.s,
            r.1.s == self.s,
            r.2.s == self.s,
            r.2.how == STREAM_SELF,
    {
        rt.share_stream(self.s, 2);
        (
            RecvOnlyStream::new(self.s),
            WriteOnlyStream::new(self.s),
            CloseStream::new(self.s, STREAM_SELF),
        )
    }

    /// Gives the handle up: this side's halves are closed.
    pub fn release(self, rt: &mut Runtime) -> (r: Result<(), Fault>)
        requires
            old(rt).wf(),
            self.s.is_some() ==> old(rt).streams.valid(self.s.unwrap()),
        ensures
            final(rt).wf(),
            final(rt).dropped(old(rt), self.s, STREAM_SELF, r),
    {
        rt.drop_stream(self.s, STREAM_SELF)
    }
}

impl Default for RecvWriteStream {
    fn default() -> (r: Self)
        ensures
            r.s.is_none(),
    {
        RecvWriteStream { s: None }
    }
}

impl Recv for RecvWriteStream {
    open spec fn stream(&self) -> Option<Stream> {
        self.s
    }

    fn recv(&mut self, capacity: usize) -> (r: StreamRecvFuture) {
        StreamRecvFuture::new(self.s, capacity)
    }
}

impl Write for RecvWriteStream {
    open spec fn stream(&self) -> Option<Stream> {
        self.s
    }

    fn write(&mut self, data: &[u8]) -> (r: StreamWriteFuture) {
        StreamWriteFuture::new(self.s, data, 0)
    }

    fn write_all(&mut self, data: &[u8]) -> (r: StreamWriteAllFuture) {
        StreamWriteAllFuture::new(self.s, data)
    }
}

impl Close for RecvWriteStream {
    open spec fn stream(&self) -> Option<Stream> {
        self.s
    }

    open spec fn closes(&self) -> StreamFlags {
        STREAM_SELF
    }

    open spec fn awaits(&self) -> StreamFlags {
        STREAM_PEER
    }

    fn close(&mut self) -> (r: StreamCloseFuture) {
        let s = self.s;
        self.s = None;
        StreamCloseFuture::new(s, STREAM_SELF, STREAM_PEER)
    }
}

impl RecvStream {
    pub fn new(s: Option<Stream>) -> (r: Self)
        ensures
            r.s == s,
    {
        RecvStream { s }
    }

    /// Detach the closing functionality.
    pub fn split(self, rt: &mut Runtime) -> (r: (RecvOnlyStream, CloseStream))
        requires
            old(rt).wf(),
        ensures
            final(rt).wf(),
            final(rt).shared(old(rt), self.s, 1),
            r.0.s == self.s,
            r.1.s == self.s,
            r.1.how == STREAM_SELF_FLOW,
    {
        rt.share_stream(self.s, 1);
        (RecvOnlyStream::new(self.s), CloseStream::new(self.s, STREAM_SELF_FLOW))
    }

    /// The input half of a bidirectional stream.  What is left of the
    /// stream, its output half, is given up.
    pub fn from(stream: RecvWriteStream, rt: &mut Runtime) -> (r: Result<Self, Fault>)
        requires
            old(rt).wf(),
            stream.s.is_some() ==> old(rt).streams.valid(stream.s.unwrap()),
        ensures
            final(rt).wf(),
            match r {
                Ok(recv) => recv.s == stream.s,
                Err(e) => e == Fault::OutOfDescriptors && stream.s.is_some(),
            },
            // One more handle is counted, and the other half's is given up.
            exists|mid: Runtime| #[trigger]
                mid.shared(old(rt), stream.s, 1) && final(rt).dropped(
                    &mid,
                    stream.s,
                    STREAM_SELF_DATA,
                    match r {
                        Ok(_) => Ok(()),
                        Err(e) => Err(e),
                    },
                ),
    {
        let (recv, write) = stream.split(rt);
        let ghost mid = *rt;
        proof {
            if stream.s.is_some() {
                assert(rt.streams.slots@.len() == old(rt).streams.slots@.len());
            }
            assert(mid.shared(old(rt), stream.s, 1));
        }
        match write.release(rt) {
            Ok(()) => Ok(recv),
            Err(e) => Err(e),
        }
    }

    /// Gives the handle up: this side's flow half is closed.
    pub fn release(self, rt: &mut Runtime) -> (r: Result<(), Fault>)
        requires
            old(rt).wf(),
            self.s.is_some() ==> old(rt).streams.valid(self.s.unwrap()),
        ensures
            final(rt).wf(),
            final(rt).dropped(old(rt), self.s, STREAM_SELF_FLOW, r),
    {
        rt.drop_stream(self.s, STREAM_SELF_FLOW)
    }
}

impl Default for RecvStream {
    fn default() -> (r: Self)
        ensures
            r.s.is_none(),
    {
        RecvStream { s: None }
    }
}

impl Recv for RecvStream {
    open spec fn stream(&self) -> Option<Stream> {
        self.s
    }

    fn recv(&mut self, capacity: usize) -> (r: StreamRecvFuture) {
        StreamRecvFuture::new(self.s, capacity)
    }
}

impl Close for RecvStream {
    open spec fn stream(&self) -> Option<Stream> {
        self.s
    }

    open spec fn closes(&self) -> StreamFlags {
        STREAM_SELF_FLOW
    }

    open spec fn awaits(&self) -> StreamFlags {
        STREAM_PEER_DATA
    }

    fn close(&mut self) -> (r: StreamCloseFuture) {
        let s = self.s;
        self.s = None;
        StreamCloseFuture::new(s, STREAM_SELF_FLOW, STREAM_PEER_DATA)
    }
}

impl RecvOnlyStream {
    pub fn new(s: Option<Stream>) -> (r: Self)
        ensures
            r.s == s,
    {
        RecvOnlyStream { s }
    }

    /// Gives the handle up: this side's flow half is closed.
    pub fn release(self, rt: &mut Runtime) -> (r: Result<(), Fault>)
        requires
            old(rt).wf(),
            self.s.is_some() ==> old(rt).streams.valid(self.s.unwrap()),
        ensures
            final(rt).wf(),
            final(rt).dropped(old(rt), self.s, STREAM_SELF_FLOW, r),
    {
        rt.drop_stream(self.s, STREAM_SELF_FLOW)
    }
}

impl Default for RecvOnlyStream {
    fn default() -> (r: Self)
        ensures
            r.s.is_none(),
    {
        RecvOnlyStream { s: None }
    }
}

impl Recv for RecvOnlyStream {
    open spec fn stream(&self) -> Option<Stream> {
        self.s
    }

    fn recv(&mut self, capacity: usize) -> (r: StreamRecvFuture) {
        StreamRecvFuture::new(self.s, capacity)
    }
}

impl WriteStream {
    pub fn new(s: Option<Stream>) -> (r: Self)
        ensures
            r.s == s,
    {
        WriteStream { s }
    }

    /// Detach the closing functionality.
    pub fn split(self, rt: &mut Runtime) -> (r: (WriteOnlyStream, CloseStream))
        requires
            old(rt).wf(),
        ensures
            final(rt).wf(),
            final(rt).shared(old(rt), self.s, 1),
            r.0.s == self.s,
            r.1.s == self.s,
            r.1.how == STREAM_SELF_DATA,
    {
        rt.share_stream(self.s, 1);
        (WriteOnlyStream::new(self.s), CloseStream::new(self.s, STREAM_SELF_DATA))
    }

    /// The output half of a bidirectional stream.  What is left of the
    /// stream, its input half, is given up.
    pub fn from(stream: RecvWriteStream, rt: &mut Runtime) -> (r: Result<Self, Fault>)
        requires
            old(rt).wf(),
            stream.s.is_some() ==> old(rt).streams.valid(stream.s.unwrap()),
        ensures
            final(rt).wf(),
            match r {
                Ok(write) => write.s == stream.s,
                Err(e) => e == Fault::OutOfDescriptors && stream.s.is_some(),
            },
            // One more handle is counted, and the other half's is given up.
            exists|mid: Runtime| #[trigger]
                mid.shared(old(rt), stream.s, 1) && final(rt).dropped(
                    &mid,
                    stream.s,
                    STREAM_SELF_FLOW,
                    match r {
                        Ok(_) => Ok(()),
                        Err(e) => Err(e),
                    },
                ),
    {
        let (recv, write) = stream.split(rt);
        let ghost mid = *rt;
        proof {
            if stream.s.is_some() {
                assert(rt.streams.slots@.len() == old(rt).streams.slots@.len());
            }
            assert(mid.shared(old(rt), stream.s, 1));
        }
        match recv.release(rt) {
            Ok(()) => Ok(write),
            Err(e) => Err(e),
        }
    }

    /// Gives the handle up: this side's data half is closed.
    pub fn release(self, rt: &mut Runtime) -> (r: Result<(), Fault>)
        requires
            old(rt).wf(),
            self.s.is_some() ==> old(rt).streams.valid(self.s.unwrap()),
        ensures
            final(rt).wf(),
            final(rt).dropped(old(rt), self.s, STREAM_SELF_DATA, r),
    {
        rt.drop_stream(self.s, STREAM_SELF_DATA)
    }
}

impl Default for WriteStream {
    fn default() -> (r: Self)
        ensures
            r.s.is_none(),
    {
        WriteStream { s: None }
    }
}

impl Write for WriteStream {
    open spec fn stream(&self) -> Option<Stream> {
        self.s
    }

    fn write(&mut self, data: &[u8]) -> (r: StreamWriteFuture) {
        StreamWriteFuture::new(self.s, data, 0)
    }

    fn write_all(&mut self, data: &[u8]) -> (r: StreamWriteAllFuture) {
        StreamWriteAllFuture::new(self.s, data)
    }
}

impl Close for WriteStream {
    open spec fn stream(&self) -> Option<Stream> {
        self.s
    }

    open spec fn closes(&self) -> StreamFlags {
        STREAM_SELF_DATA
    }

    open spec fn awaits(&self) -> StreamFlags {
        STREAM_PEER_FLOW
    }

    fn close(&mut self) -> (r: StreamCloseFuture) {
        let s = self.s;
        self.s = None;
        StreamCloseFuture::new(s, STREAM_SELF_DATA, STREAM_PEER_FLOW)
    }
}

impl WriteOnlyStream {
    pub fn new(s: Option<Stream>) -> (r: Self)
        ensures
            r.s == s,
    {
        WriteOnlyStream { s }
    }

    /// Gives the handle up: this side's data half is closed.
    pub fn release(self, rt: &mut Runtime) -> (r: Result<(), Fault>)
        requires
            old(rt).wf(),
            self.s.is_some() ==> old(rt).streams.valid(self.s.unwrap()),
        ensures
            final(rt).wf(),
            final(rt).dropped(old(rt), self.s, STREAM_SELF_DATA, r),
    {
        rt.drop_stream(self.s, STREAM_SELF_DATA)
    }
}

impl Default for WriteOnlyStream {
    fn default() -> (r: Self)
        ensures
            r.s.is_none(),
    {
        WriteOnlyStream { s: None }
    }
}

impl Write for WriteOnlyStream {
    open spec fn stream(&self) -> Option<Stream> {
        self.s
    }

    fn write(&mut self, data: &[u8]) -> (r: StreamWriteFuture) {
        StreamWriteFuture::new(self.s, data, 0)
    }

    fn write_all(&mut self, data: &[u8]) -> (r: StreamWriteAllFuture) {
        StreamWriteAllFuture::new(self.s, data)
    }
}

impl CloseStream {
    pub fn new(s: Option<Stream>, how: StreamFlags) -> (r: Self)
        ensures
            r.s == s,
            r.how == how,
    {
        CloseStream { s, how }
    }

    /// The peer's halves that answer this side's halves `how`: its data half
    /// for this side's flow half, and its flow half for this side's data
    /// half.
    pub open spec fn peer_of(how: StreamFlags) -> StreamFlags {
        how << 2
    }

    /// Gives the handle up: the halves that it closes are closed.
    pub fn release(self, rt: &mut Runtime) -> (r: Result<(), Fault>)
        requires
            old(rt).wf(),
            self.s.is_some() ==> old(rt).streams.valid(self.s.unwrap()),
        ensures
            final(rt).wf(),
            final(rt).dropped(old(rt), self.s, self.how, r),
    {
        rt.drop_stream(self.s, self.how)
    }
}

impl Default for CloseStream {
    fn default() -> (r: Self)
        ensures
            r.s.is_none(),
            r.how == 0,
    {
        CloseStream { s: None, how: 0 }
    }
}

impl Close for CloseStream {
    open spec fn stream(&self) -> Option<Stream> {
        self.s
    }

    open spec fn closes(&self) -> StreamFlags {
        self.how
    }

    open spec fn awaits(&self) -> StreamFlags {
        Self::peer_of(self.how)
    }

    fn close(&mut self) -> (r: StreamCloseFuture) {
        let s = self.s;
        self.s = None;
        let wait: StreamFlags = self.how << 2;
        StreamCloseFuture::new(s, self.how, wait)
    }
}

} // verus!
