//! The shapes that cross the host call: receive targets, send spans, the
//! timeout and the flags word.

use vstd::prelude::*;

verus! {

/// The most bytes one host call delivers: one maximum-size packet.
pub const MAX_RECV_SIZE: usize = 65536;

/// Set in the host's flags when execution has started or was resumed.
pub const FLAG_STARTED_OR_RESUMED: u64 = 0x1;

/// The timeout value that blocks until something can be transferred.
pub const TIMEOUT_BLOCK: i64 = -1;

/// A span of bytes to send.
#[derive(Clone, Debug)]
pub struct Ciovec {
    pub buf: Vec<u8>,
}

impl View for Ciovec {
    type V = Seq<u8>;

    open spec fn view(&self) -> Seq<u8> {
        self.buf@
    }
}

impl Ciovec {
    /// A span that holds a copy of `buf`.
    pub fn new(buf: &[u8]) -> (r: Self)
        ensures
            r@ == buf@,
    {
        let mut v: Vec<u8> = Vec::new();
        v.extend_from_slice(buf);
        Ciovec { buf: v }
    }

    /// The number of bytes in the span.
    pub fn buf_len(&self) -> (r: usize)
        ensures
            r == self@.len(),
    {
        self.buf.len()
    }
}

impl Default for Ciovec {
    fn default() -> (r: Self)
        ensures
            r@ == Seq::<u8>::empty(),
    {
        Ciovec { buf: Vec::new() }
    }
}

/// A receive target: `buf_len` bytes of the receive buffer, from offset `buf`.
#[derive(Clone, Copy, Debug, PartialEq, Eq, Structural)]
pub struct Iovec {
    pub buf: usize,
    pub buf_len: usize,
}

impl Default for Iovec {
    fn default() -> (r: Self)
        ensures
            r.buf == 0,
            r.buf_len == 0,
    {
        Iovec { buf: 0, buf_len: 0 }
    }
}

/// The host's timeout argument for a wait of `nanos` nanoseconds.
pub open spec fn spec_timeout(nanos: Option<u128>) -> i64 {
    match nanos {
        Some(n) => if n <= 0x7fff_ffff_ffff_ffff {
            n as i64
        } else {
            0x7fff_ffff_ffff_ffff
        },
        None => TIMEOUT_BLOCK,
    }
}

/// Converts a wait in nanoseconds to the host's timeout argument: no wait
/// blocks, and a wait too long to count is the longest that can be.
pub fn timeout(nanos: Option<u128>) -> (r: i64)
    ensures
        r == spec_timeout(nanos),
{
    match nanos {
        Some(n) => {
            if n <= 0x7fff_ffff_ffff_ffff {
                n as i64
            } else {
                0x7fff_ffff_ffff_ffff
            }
        },
        None => TIMEOUT_BLOCK,
    }
}

} // verus!
