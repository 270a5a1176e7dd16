//! The operations on a read buffer.

use crate::buf::{Buf, BufResult};
use crate::flow::StreamErrorCode;
use crate::future::Poll;
use crate::task::Waker;
use vstd::prelude::*;

verus! {

/// Asynchronous read.
pub struct Read {}

/// Asynchronous read.
pub struct BufRead {
    pub min_read: usize,
}

/// What a buffered read found.
#[derive(Clone, Copy, Debug, PartialEq, Eq, Structural)]
pub enum BufReadEvent {
    /// Nothing yet: the reader is woken when enough has come.
    Pending,
    /// Enough is buffered: the receptor is given the buffer.
    Deliver,
    /// The stream has ended and nothing is buffered.
    Eof,
    /// The stream has ended with an error and nothing is buffered.
    Failed(StreamErrorCode),
}

impl Read {
    /// Reads what is buffered into `dest`, as much as fits.  With nothing
    /// buffered, the read waits while the stream goes on, and is done with
    /// nothing read, or with the stream's error, once it has ended.
    pub fn poll(&mut self, buf: &mut Buf, dest: &mut [u8], waker: Waker) -> (r: Poll<
        Result<usize, StreamErrorCode>,
    >)
        ensures
            final(buf).result == old(buf).result,
            old(buf)@.len() > 0 ==> ({
                let n = if old(buf)@.len() < old(dest)@.len() {
                    old(buf)@.len()
                } else {
                    old(dest)@.len()
                };
                &&& r == Poll::Ready(Ok::<usize, StreamErrorCode>(n as usize))
                &&& final(dest)@ == old(buf)@.take(n as int) + old(dest)@.skip(n as int)
                &&& final(buf)@ == old(buf)@.skip(n as int)
                &&& final(buf).waker == old(buf).waker
            }),
            old(buf)@.len() == 0 ==> final(dest)@ == old(dest)@ && final(buf)@ == old(buf)@
                && match old(buf).result {
                BufResult::Pending => r == Poll::<Result<usize, StreamErrorCode>>::Pending
                    && final(buf).waker == Some(waker),
                BufResult::Eof => r == Poll::Ready(Ok::<usize, StreamErrorCode>(0))
                    && final(buf).waker == old(buf).waker,
                BufResult::Failed(e) => r == Poll::Ready(Err::<usize, StreamErrorCode>(e))
                    && final(buf).waker == old(buf).waker,
            },
    {
        if buf.len() > 0 {
            Poll::Ready(Ok(buf.read(dest)))
        } else {
            match buf.result {
                BufResult::Pending => {
                    buf.waker = Some(waker);
                    Poll::Pending
                },
                BufResult::Eof => Poll::Ready(Ok(0)),
                BufResult::Failed(e) => Poll::Ready(Err(e)),
            }
        }
    }
}

impl BufRead {
    /// The least that must be buffered for the receptor: what was asked for
    /// while the stream goes on, and one byte once it has ended.
    pub open spec fn threshold(&self, buf: &Buf) -> usize {
        if buf.result != BufResult::Pending {
            1
        } else {
            self.min_read
        }
    }

    /// Says whether enough is buffered for the receptor.  If not, the read
    /// waits while the stream goes on, and is done once it has ended.
    pub fn poll(&mut self, buf: &mut Buf, waker: Waker) -> (r: BufReadEvent)
        ensures
            final(buf)@ == old(buf)@,
            final(buf).result == old(buf).result,
            final(self).min_read == old(self).min_read,
            r == (if old(buf)@.len() >= old(self).threshold(old(buf)) {
                BufReadEvent::Deliver
            } else {
                match old(buf).result {
                    BufResult::Pending => BufReadEvent::Pending,
                    BufResult::Eof => BufReadEvent::Eof,
                    BufResult::Failed(e) => BufReadEvent::Failed(e),
                }
            }),
            final(buf).waker == (if r == BufReadEvent::Pending {
                Some(waker)
            } else {
                old(buf).waker
            }),
    {
        let mut min_read: usize = self.min_read;
        match buf.result {
            BufResult::Pending => {},
            _ => {
                min_read = 1;
            },
        }
        if buf.len() >= min_read {
            BufReadEvent::Deliver
        } else {
            match buf.result {
                BufResult::Pending => {
                    buf.waker = Some(waker);
                    BufReadEvent::Pending
                },
                BufResult::Eof => BufReadEvent::Eof,
                BufResult::Failed(e) => BufReadEvent::Failed(e),
            }
        }
    }
}

} // verus!
