//! Buffered I/O streams.

use crate::flow::{
    StreamCloseFuture, StreamErrorCode, StreamRecvFuture, StreamWriteAllFuture,
    StreamWriteFuture,
};

use crate::process::Runtime;
use crate::stream::{
    Close, CloseStream, RecvOnlyStream, RecvStream, RecvWriteStream, Write, WriteOnlyStream,
    STREAM_SELF,
};
use crate::streams::{Stream, StreamFlags, STREAM_SELF_FLOW};
use crate::task::{Tasks, Waker};
use vstd::prelude::*;

pub mod future;

verus! {

/// Whether more data may come into a buffer, and if not, why not.
#[derive(Clone, Copy, Debug, PartialEq, Eq, Structural)]
pub enum BufResult {
    Pending,
    Eof,
    Failed(StreamErrorCode),
}

/// Read buffer.
pub struct Buf {
    pub data: Vec<u8>,
    pub result: BufResult,
    pub waker: Option<Waker>,
}

impl View for Buf {
    type V = Seq<u8>;

    open spec fn view(&self) -> Seq<u8> {
        self.data@
    }
}

/// What a note at the end of a stream means for its buffer: the end of the
/// data, or the error that the note is.
pub open spec fn spec_result(note: i32) -> BufResult {
    if note == 0 {
        BufResult::Eof
    } else {
        BufResult::Failed(StreamErrorCode(note))
    }
}

impl Buf {
    pub fn new(result: BufResult) -> (r: Self)
        ensures
            r@ == Seq::<u8>::empty(),
            r.result == result,
            r.waker.is_none(),
    {
        Buf { data: Vec::new(), result, waker: None }
    }

    /// Returns the number of buffered bytes.
    pub fn len(&self) -> (r: usize)
        ensures
            r == self@.len(),
    {
        self.data.len()
    }

    /// Access the buffered bytes.
    pub fn as_slice(&self) -> (r: &[u8])
        ensures
            r@ == self@,
    {
        self.data.as_slice()
    }

    /// Remove bytes from the start of the buffer.
    pub fn consume(&mut self, n: usize)
        requires
            n <= old(self)@.len(),
        ensures
            final(self)@ == old(self)@.skip(n as int),
            final(self).result == old(self).result,
            final(self).waker == old(self).waker,
    {
        let rest = self.data.split_off(n);
        self.data = rest;
        assert(self@ =~= old(self)@.skip(n as int));
    }

    /// Remove all bytes from the buffer.
    pub fn consume_all(&mut self)
        ensures
            final(self)@ == Seq::<u8>::empty(),
            final(self).result == old(self).result,
            final(self).waker == old(self).waker,
    {
        self.data = Vec::new();
    }

    /// Moves bytes from the start of the buffer into `dest`, as many as fit.
    /// Returns how many.
    pub fn read(&mut self, dest: &mut [u8]) -> (n: usize)
        ensures
            n == (if old(self)@.len() < old(dest)@.len() {
                old(self)@.len()
            } else {
                old(dest)@.len()
            }),
            final(dest)@ == old(self)@.take(n as int) + old(dest)@.skip(n as int),
            final(self)@ == old(self)@.skip(n as int),
            final(self).result == old(self).result,
            final(self).waker == old(self).waker,
    {
        let n: usize = crate::random::take(dest, 0, self.data.as_slice());
        if n > 0 {
            self.consume(n);
        }
        proof {
            assert(dest@ =~= old(self)@.take(n as int) + old(dest)@.skip(n as int));
            assert(self@ =~= old(self)@.skip(n as int));
        }
        n
    }

    /// Takes in data that came from the stream and wakes the reader.  Says
    /// how much more the buffer takes: as much as came.
    pub fn fill(&mut self, src: &[u8], tasks: &mut Tasks) -> (n: usize)
        requires
            old(tasks).wf(),
        ensures
            final(tasks).wf(),
            n == src@.len(),
            final(self)@ == old(self)@ + src@,
            final(self).result == old(self).result,
            final(self).waker.is_none(),
            final(tasks).state() == crate::process::woken_option(
                old(tasks).state(),
                old(tasks).next_id(),
                old(self).waker,
            ),
    {
        self.data.extend_from_slice(src);
        let w = self.waker;
        self.waker = None;
        tasks.wake_option(w);
        src.len()
    }

    /// Notes that the stream has ended, with this note, and wakes the reader.
    pub fn finish(&mut self, note: i32, tasks: &mut Tasks)
        requires
            old(tasks).wf(),
        ensures
            final(tasks).wf(),
            final(self)@ == old(self)@,
            final(self).result == spec_result(note),
            final(self).waker.is_none(),
            final(tasks).state() == crate::process::woken_option(
                old(tasks).state(),
                old(tasks).next_id(),
                old(self).waker,
            ),
    {
        self.result = if note == 0 {
            BufResult::Eof
        } else {
            BufResult::Failed(StreamErrorCode(note))
        };
        let w = self.waker;
        self.waker = None;
        tasks.wake_option(w);
    }
}

/// Buffer size used by `ReadStream::new` and `ReadWriteStream::new`.
pub const DEFAULT_READ_CAPACITY: usize = 8192;

/// Buffered data reader.
pub trait Read {
    /// The buffer that is read from.
    spec fn buffered(&self) -> Seq<u8>;

    /// Read some bytes into a slice.  Returns the operation.
    fn read(&mut self) -> (r: future::Read)
        ensures
            final(self).buffered() == old(self).buffered(),
    ;

    /// Read buffered data.  Returns the operation.
    ///
    /// The receptor must be prepared to handle as much data as the buffer can
    /// hold.
    fn buf_read(&mut self, min_read: usize) -> (r: future::BufRead)
        requires
            min_read > 0,
        ensures
            final(self).buffered() == old(self).buffered(),
            r.min_read == min_read,
    ;
}

/// Buffered input stream.
pub struct ReadStream {
    pub shared: Buf,
    pub closer: CloseStream,
}

impl ReadStream {
    /// Convert an unbuffered input stream into a buffered input stream.  With
    /// it come the stream's receiving end and the operation that fills the
    /// buffer from it, to be run in the background.
    pub fn new(stream: RecvStream, rt: &mut Runtime) -> (r: (Self, RecvOnlyStream, StreamRecvFuture))
        requires
            old(rt).wf(),
        ensures
            final(rt).wf(),
            final(rt).shared(old(rt), stream.s, 1),
            r.0.shared@ == Seq::<u8>::empty(),
            r.0.shared.result == BufResult::Pending,
            r.0.closer.s == stream.s,
            r.0.closer.how == STREAM_SELF_FLOW,
            r.1.s == stream.s,
            r.2.wf(),
            r.2.s == stream.s,
            r.2.unsubscribed == DEFAULT_READ_CAPACITY,
            r.2.unreceived == 0,
    {
        Self::with_capacity(DEFAULT_READ_CAPACITY, stream, rt)
    }

    /// Convert an unbuffered input stream into an input stream with custom
    /// buffer size.
    pub fn with_capacity(capacity: usize, stream: RecvStream, rt: &mut Runtime) -> (r: (
        Self,
        RecvOnlyStream,
        StreamRecvFuture,
    ))
        requires
            old(rt).wf(),
        ensures
            final(rt).wf(),
            final(rt).shared(old(rt), stream.s, 1),
            r.0.shared@ == Seq::<u8>::empty(),
            r.0.shared.result == BufResult::Pending,
            r.0.closer.s == stream.s,
            r.0.closer.how == STREAM_SELF_FLOW,
            r.1.s == stream.s,
            r.2.wf(),
            r.2.s == stream.s,
            r.2.unsubscribed == capacity,
            r.2.unreceived == 0,
    {
        let (receiver, closer) = stream.split(rt);
        Self::with_custom_closer(capacity, receiver, closer)
    }

    pub fn with_custom_closer(capacity: usize, receiver: RecvOnlyStream, closer: CloseStream) -> (r:
        (Self, RecvOnlyStream, StreamRecvFuture))
        ensures
            r.0.shared@ == Seq::<u8>::empty(),
            r.0.shared.result == BufResult::Pending,
            r.0.closer == closer,
            r.1.s == receiver.s,
            r.2.wf(),
            r.2.s == receiver.s,
            r.2.unsubscribed == capacity,
            r.2.unreceived == 0,
    {
        let future = StreamRecvFuture::new(receiver.s, capacity);
        (ReadStream { shared: Buf::new(BufResult::Pending), closer }, receiver, future)
    }
}

impl Default for ReadStream {
    /// A stream at its end.
    fn default() -> (r: Self)
        ensures
            r.shared@ == Seq::<u8>::empty(),
            r.shared.result == BufResult::Eof,
            r.closer.s.is_none(),
    {
        ReadStream { shared: Buf::new(BufResult::Eof), closer: CloseStream::new(None, 0) }
    }
}

impl Read for ReadStream {
    open spec fn buffered(&self) -> Seq<u8> {
        self.shared@
    }

    fn read(&mut self) -> (r: future::Read) {
        future::Read {  }
    }

    fn buf_read(&mut self, min_read: usize) -> (r: future::BufRead) {
        future::BufRead { min_read }
    }
}

impl Close for ReadStream {
    open spec fn stream(&self) -> Option<Stream> {
        self.closer.s
    }

    open spec fn closes(&self) -> StreamFlags {
        self.closer.how
    }

    open spec fn awaits(&self) -> StreamFlags {
        CloseStream::peer_of(self.closer.how)
    }

    fn close(&mut self) -> (r: StreamCloseFuture) {
        self.closer.close()
    }
}

/// Bidirectional stream with input buffering.
pub struct ReadWriteStream {
    pub r: ReadStream,
    pub w: WriteOnlyStream,
}

impl ReadWriteStream {
    /// Convert an unbuffered stream into a stream with input buffering.
    pub fn new(stream: RecvWriteStream, rt: &mut Runtime) -> (r: (
        Self,
        RecvOnlyStream,
        StreamRecvFuture,
    ))
        requires
            old(rt).wf(),
        ensures
            final(rt).wf(),
            final(rt).shared(old(rt), stream.s, 2),
            r.0.r.shared@ == Seq::<u8>::empty(),
            r.0.r.shared.result == BufResult::Pending,
            r.0.r.closer.s == stream.s,
            r.0.r.closer.how == STREAM_SELF,
            r.0.w.s == stream.s,
            r.1.s == stream.s,
            r.2.wf(),
            r.2.s == stream.s,
            r.2.unsubscribed == DEFAULT_READ_CAPACITY,
            r.2.unreceived == 0,
    {
        Self::with_read_capacity(DEFAULT_READ_CAPACITY, stream, rt)
    }

    /// Convert an unbuffered stream into a stream with custom input buffer
    /// size.
    pub fn with_read_capacity(capacity: usize, stream: RecvWriteStream, rt: &mut Runtime) -> (r: (
        Self,
        RecvOnlyStream,
        StreamRecvFuture,
    ))
        requires
            old(rt).wf(),
        ensures
            final(rt).wf(),
            final(rt).shared(old(rt), stream.s, 2),
            r.0.r.shared@ == Seq::<u8>::empty(),
            r.0.r.shared.result == BufResult::Pending,
            r.0.r.closer.s == stream.s,
            r.0.r.closer.how == STREAM_SELF,
            r.0.w.s == stream.s,
            r.1.s == stream.s,
            r.2.wf(),
            r.2.s == stream.s,
            r.2.unsubscribed == capacity,
            r.2.unreceived == 0,
    {
        let (receiver, writer, closer) = stream.split3(rt);
        let (r, receiver, future) = ReadStream::with_custom_closer(capacity, receiver, closer);
        (ReadWriteStream { r, w: writer }, receiver, future)
    }
}

impl Default for ReadWriteStream {
    /// A stream at its end.
    fn default() -> (r: Self)
        ensures
            r.r.shared@ == Seq::<u8>::empty(),
            r.r.shared.result == BufResult::Eof,
            r.w.s.is_none(),
    {
        ReadWriteStream { r: ReadStream::default(), w: WriteOnlyStream::new(None) }
    }
}

impl Read for ReadWriteStream {
    open spec fn buffered(&self) -> Seq<u8> {
        self.r.shared@
    }

    fn read(&mut self) -> (r: future::Read) {
        self.r.read()
    }

    fn buf_read(&mut self, min_read: usize) -> (r: future::BufRead) {
        self.r.buf_read(min_read)
    }
}

impl Write for ReadWriteStream {
    open spec fn stream(&self) -> Option<Stream> {
        self.w.s
    }

    fn write(&mut self, data: &[u8]) -> (r: StreamWriteFuture) {
        self.w.write(data)
    }

    fn write_all(&mut self, data: &[u8]) -> (r: StreamWriteAllFuture) {
        self.w.write_all(data)
    }
}

impl Close for ReadWriteStream {
    open spec fn stream(&self) -> Option<Stream> {
        self.r.closer.s
    }

    open spec fn closes(&self) -> StreamFlags {
        self.r.closer.how
    }

    open spec fn awaits(&self) -> StreamFlags {
        CloseStream::peer_of(self.r.closer.how)
    }

    fn close(&mut self) -> (r: StreamCloseFuture) {
        self.r.close()
    }
}

} // verus!
