//! The receive buffer: two spans of valid bytes in one array, filled by the
//! host and consumed packet by packet, in place.

use crate::error::Fault;
use crate::gate::{Iovec, MAX_RECV_SIZE};
use crate::packet;
use crate::packet::{read32, spec_align, HEADER_SIZE, MAX_PACKET_SIZE};
use vstd::prelude::*;

verus! {

/// The size of the receive buffer: two maximum-size packets.
pub const RECV_BUF_SIZE: usize = 131072;

/// A run of valid bytes in the receive buffer.
#[derive(Clone, Copy, Debug, PartialEq, Eq, Structural)]
pub struct RecvSpan {
    pub off: usize,
    pub end: usize,
}

impl RecvSpan {
    pub fn is_empty(&self) -> (r: bool)
        ensures
            r == (self.off == self.end),
    {
        self.off == self.end
    }
}

impl Default for RecvSpan {
    fn default() -> (r: Self)
        ensures
            r == (RecvSpan { off: 0, end: 0 }),
    {
        RecvSpan { off: 0, end: 0 }
    }
}

/// Where the host may put received bytes: the first `len` of two targets, the
/// first filled first.
#[derive(Clone, Copy, Debug)]
pub struct RecvPlan {
    pub vec: [Iovec; 2],
    pub len: usize,
}

impl RecvPlan {
    /// The targets in use.
    pub open spec fn targets(&self) -> Seq<Iovec> {
        self.vec@.subrange(0, self.len as int)
    }
}

pub struct RecvBuf {
    pub buf: Vec<u8>,
    pub head: RecvSpan,
    pub tail: RecvSpan,
    /// Whether a consumer holds the offset of the packet at the head.
    pub in_use: bool,
}

impl RecvBuf {
    /// The size field of the packet that starts at `off`.
    pub open spec fn size_at(&self, off: int) -> int {
        read32(self.buf@, off)
    }

    /// The aligned size of the packet at the head.
    pub open spec fn head_packet_len(&self) -> int {
        spec_align(self.size_at(self.head.off as int))
    }

    /// The spans lie in the buffer.  The head span starts at a multiple of
    /// eight in the first half; where it reaches into the second half, it
    /// holds one packet only.  The tail span is a prefix of the buffer that
    /// ends before the head span starts, and is empty where the head span is.
    pub open spec fn wf(&self) -> bool {
        &&& self.buf@.len() == RECV_BUF_SIZE
        &&& self.head.off <= self.head.end <= RECV_BUF_SIZE
        &&& self.head.off % 8 == 0
        &&& self.head.off < self.head.end ==> self.head.off < MAX_RECV_SIZE
        &&& self.head.off == self.head.end ==> self.tail.end == 0 && self.head.off <= MAX_RECV_SIZE
        &&& self.tail.off == 0
        &&& self.tail.end <= self.head.off
        &&& self.head.end > MAX_RECV_SIZE ==> self.head.end - self.head.off >= HEADER_SIZE
            && self.head.end <= self.head.off + self.head_packet_len()
    }

    /// The bytes of the head span.
    pub open spec fn head_bytes(&self) -> Seq<u8> {
        self.buf@.subrange(self.head.off as int, self.head.end as int)
    }

    /// The bytes of the tail span.
    pub open spec fn tail_bytes(&self) -> Seq<u8> {
        self.buf@.subrange(self.tail.off as int, self.tail.end as int)
    }

    /// Every byte that was received and not consumed yet, in the order of
    /// arrival.
    pub open spec fn pending(&self) -> Seq<u8> {
        self.head_bytes() + self.tail_bytes()
    }

    /// Whether the head span holds a whole packet.
    pub open spec fn packet_ready(&self) -> bool {
        &&& self.head.end - self.head.off >= HEADER_SIZE
        &&& self.head.off + self.head_packet_len() <= self.head.end
    }

    /// The bytes of the packet at offset `off`, without padding.
    pub open spec fn packet_at(&self, off: int) -> Seq<u8> {
        self.buf@.subrange(off, off + self.size_at(off))
    }

    pub fn head_slice(&self) -> (r: &[u8])
        requires
            self.wf(),
        ensures
            r@ == self.head_bytes(),
    {
        &self.buf[self.head.off..self.head.end]
    }

    /// Reads the size field of the packet at `off`.
    pub fn packet_size(&self, off: usize) -> (r: usize)
        requires
            self.wf(),
            off + 4 <= RECV_BUF_SIZE,
        ensures
            r == self.size_at(off as int),
    {
        packet::size(&self.buf[off..off + 4])
    }

    /// Whether the head span holds a whole packet.
    pub fn has_packet(&self) -> (r: bool)
        requires
            self.wf(),
        ensures
            r == self.packet_ready(),
    {
        if self.head.end - self.head.off < HEADER_SIZE {
            return false;
        }
        let size: usize = self.packet_size(self.head.off);
        if size > RECV_BUF_SIZE {
            return false;
        }
        self.head.off + packet::align(size) <= self.head.end
    }

    /// Notes that a consumer holds the offset of the packet at the head.
    pub fn claim(&mut self)
        requires
            old(self).wf(),
        ensures
            final(self).wf(),
            final(self).in_use,
            final(self).buf == old(self).buf,
            final(self).head == old(self).head,
            final(self).tail == old(self).tail,
    {
        self.in_use = true;
    }

    /// The spans after the packet at the head was released: the head span
    /// starts behind the packet's padding, and the tail span takes its place
    /// if nothing is left in it.
    pub open spec fn spans_after_consumed(&self) -> (RecvSpan, RecvSpan) {
        let new_off = (self.head.off + self.head_packet_len()) as usize;
        if new_off == self.head.end {
            (self.tail, RecvSpan { off: 0, end: 0 })
        } else {
            (RecvSpan { off: new_off, end: self.head.end }, self.tail)
        }
    }

    /// The spans after `n` bytes, at least one, were received into the
    /// receive targets.  They lengthen the head span; what does not fit
    /// behind the packet that the head span ends with makes up the tail
    /// span.
    pub open spec fn spans_after_receive(&self, n: int) -> (RecvSpan, RecvSpan) {
        let plan = self.spec_plan();
        if self.head.off == self.head.end {
            (RecvSpan { off: 0, end: n as usize }, self.tail)
        } else if n <= plan[0].buf_len {
            (RecvSpan { off: self.head.off, end: (self.head.end + n) as usize }, self.tail)
        } else {
            (
                RecvSpan { off: self.head.off, end: (self.head.end + plan[0].buf_len) as usize },
                RecvSpan { off: 0, end: (n - plan[0].buf_len) as usize },
            )
        }
    }

    /// What `consumed` answers: the fault, if any.
    pub open spec fn consumed_fault(&self) -> Option<Fault> {
        let size = self.size_at(self.head.off as int);
        if size < HEADER_SIZE || size > MAX_PACKET_SIZE {
            Some(Fault::PacketSizeOutOfBounds)
        } else if self.head.off + spec_align(size) > self.head.end {
            Some(Fault::HeadSpanTooShort)
        } else {
            None
        }
    }

    /// Releases the packet at the head: the head span then starts behind the
    /// packet's padding, and the tail span takes its place if nothing is
    /// left in it.
    pub fn consumed(&mut self) -> (r: Result<(), Fault>)
        requires
            old(self).wf(),
        ensures
            final(self).wf(),
            final(self).buf@ == old(self).buf@,
            match r {
                Ok(()) => old(self).consumed_fault().is_none() && !final(self).in_use
                    && (final(self).head, final(self).tail) == old(self).spans_after_consumed()
                    && final(self).pending()
                    == old(self).pending().skip(old(self).head_packet_len()),
                Err(e) => old(self).consumed_fault() == Some(e) && *final(self) == *old(self),
            },
    {
        let size: usize = self.packet_size(self.head.off);
        if size < HEADER_SIZE || size > MAX_PACKET_SIZE {
            return Err(Fault::PacketSizeOutOfBounds);
        }
        let new_off: usize = packet::align(self.head.off + size);
        assert(new_off == self.head.off + spec_align(size as int));
        if new_off > self.head.end {
            return Err(Fault::HeadSpanTooShort);
        }
        self.head.off = new_off;
        self.in_use = false;
        if self.head.is_empty() {
            self.head = self.tail;
            self.tail = RecvSpan::default();
        }
        assert(self.pending() =~= old(self).pending().skip(old(self).head_packet_len()));
        Ok(())
    }

    /// What `consume` answers for `off`: the fault, if any.
    pub open spec fn consume_fault(&self, off: usize) -> Option<Fault> {
        if self.head.off != off {
            Some(Fault::ConsumedOffsetNotAtHead)
        } else {
            self.consumed_fault()
        }
    }

    /// Releases the packet at `off`, which must be the one at the head, and
    /// hands out its bytes, which stay in place until the host overwrites
    /// them.
    pub fn consume(&mut self, off: usize) -> (r: Result<&[u8], Fault>)
        requires
            old(self).wf(),
        ensures
            final(self).wf(),
            final(self).buf@ == old(self).buf@,
            match r {
                Ok(p) => old(self).consume_fault(off).is_none() && !final(self).in_use
                    && (final(self).head, final(self).tail) == old(self).spans_after_consumed()
                    && p@ == old(self).packet_at(
                    off as int,
                ) && final(self).pending() == old(self).pending().skip(
                    old(self).head_packet_len(),
                ),
                Err(e) => old(self).consume_fault(off) == Some(e) && *final(self) == *old(self),
            },
    {
        if self.head.off != off {
            return Err(Fault::ConsumedOffsetNotAtHead);
        }
        match self.consumed() {
            Ok(()) => {},
            Err(e) => {
                return Err(e);
            },
        }
        let end: usize = off + self.packet_size(off);
        Ok(&self.buf[off..end])
    }
    /// What `plan` answers: the fault, if any.  A packet larger than the
    /// largest the host may send cannot be received.
    pub open spec fn plan_fault(&self) -> Option<Fault> {
        if self.tail.end == 0 && self.head.end - self.head.off >= HEADER_SIZE && self.size_at(
            self.head.off as int,
        ) > MAX_PACKET_SIZE {
            Some(Fault::PacketSizeOutOfBounds)
        } else {
            None
        }
    }

    /// The receive targets.  There is none while a received packet waits to
    /// be handled: in the tail span, or whole in the head span.  An empty
    /// buffer is filled from its start, through the first half.  Behind a
    /// packet that is there in part, the host may fill the rest of the first
    /// half, where the packet ends in it; if not, the rest of the packet,
    /// and then the buffer's start up to where the head span starts.  Behind
    /// part of a header, the rest of the header.
    pub open spec fn spec_plan(&self) -> Seq<Iovec> {
        let len = self.head.end - self.head.off;
        let packet_end = self.head.off + self.head_packet_len();
        if self.tail.end > 0 {
            Seq::empty()
        } else if self.packet_ready() {
            Seq::empty()
        } else if len == 0 {
            seq![Iovec { buf: 0, buf_len: MAX_RECV_SIZE }]
        } else if len < HEADER_SIZE {
            seq![Iovec { buf: self.head.end, buf_len: (HEADER_SIZE - len) as usize }]
        } else if packet_end < MAX_RECV_SIZE {
            seq![Iovec { buf: self.head.end, buf_len: (MAX_RECV_SIZE - self.head.end) as usize }]
        } else {
            seq![
                Iovec { buf: self.head.end, buf_len: (packet_end - self.head.end) as usize },
                Iovec { buf: 0, buf_len: self.head.off },
            ]
        }
    }

    /// The number of bytes that the receive targets hold together.
    pub open spec fn capacity(&self) -> int {
        let plan = self.spec_plan();
        if plan.len() == 0 {
            0
        } else if plan.len() == 1 {
            plan[0].buf_len as int
        } else {
            plan[0].buf_len + plan[1].buf_len
        }
    }

    /// Says where the host may put the bytes of the next receive.
    pub fn plan(&self) -> (r: Result<RecvPlan, Fault>)
        requires
            self.wf(),
        ensures
            match r {
                Ok(plan) => self.plan_fault().is_none() && plan.len <= 2 && plan.targets()
                    == self.spec_plan(),
                Err(e) => self.plan_fault() == Some(e),
            },
    {
        let mut vec: [Iovec; 2] = [Iovec::default(), Iovec::default()];
        let len: usize = self.head.end - self.head.off;
        if !self.tail.is_empty() {
            let plan = RecvPlan { vec, len: 0 };
            assert(plan.targets() =~= self.spec_plan());
            return Ok(plan);
        }
        if len >= HEADER_SIZE {
            let size: usize = self.packet_size(self.head.off);
            if size > MAX_PACKET_SIZE {
                return Err(Fault::PacketSizeOutOfBounds);
            }
            let packet_end: usize = self.head.off + packet::align(size);
            if packet_end <= self.head.end {
                let plan = RecvPlan { vec, len: 0 };
                assert(plan.targets() =~= self.spec_plan());
                return Ok(plan);
            }
            if packet_end < MAX_RECV_SIZE {
                vec[0] = Iovec { buf: self.head.end, buf_len: MAX_RECV_SIZE - self.head.end };
                let plan = RecvPlan { vec, len: 1 };
                assert(plan.targets() =~= self.spec_plan());
                return Ok(plan);
            }
            vec[0] = Iovec { buf: self.head.end, buf_len: packet_end - self.head.end };
            vec[1] = Iovec { buf: 0, buf_len: self.head.off };
            let plan = RecvPlan { vec, len: 2 };
            assert(plan.targets() =~= self.spec_plan());
            return Ok(plan);
        }
        if len == 0 {
            vec[0] = Iovec { buf: 0, buf_len: MAX_RECV_SIZE };
        } else {
            vec[0] = Iovec { buf: self.head.end, buf_len: HEADER_SIZE - len };
        }
        let plan = RecvPlan { vec, len: 1 };
        assert(plan.targets() =~= self.spec_plan());
        Ok(plan)
    }

    /// What `receive` answers for `n` received bytes: the fault, if any.
    pub open spec fn receive_fault(&self, n: int) -> Option<Fault> {
        if self.plan_fault().is_some() {
            self.plan_fault()
        } else if n > self.capacity() {
            Some(Fault::ReceivedTooMuch)
        } else {
            None
        }
    }

    /// Takes in the bytes that the host delivered for the current receive
    /// targets: they follow, in order, what was pending.
    pub fn receive(&mut self, data: &[u8]) -> (r: Result<(), Fault>)
        requires
            old(self).wf(),
        ensures
            final(self).wf(),
            final(self).in_use == old(self).in_use,
            r.is_ok() && data@.len() == 0 ==> *final(self) == *old(self),
            r.is_ok() && data@.len() > 0 ==> (final(self).head, final(self).tail) == old(self).spans_after_receive(data@.len() as int),
            match r {
                Ok(()) => old(self).receive_fault(data@.len() as int).is_none()
                    && final(self).pending() == old(self).pending() + data@,
                Err(e) => old(self).receive_fault(data@.len() as int) == Some(e) && *final(self)
                    == *old(self),
            },
    {
        let plan = match self.plan() {
            Ok(plan) => plan,
            Err(e) => {
                return Err(e);
            },
        };
        let n: usize = data.len();
        let first: usize = if plan.len >= 1 {
            plan.vec[0].buf_len
        } else {
            0
        };
        let second: usize = if plan.len >= 2 {
            plan.vec[1].buf_len
        } else {
            0
        };
        assert(plan.targets().len() == plan.len);
        assert(plan.len >= 1 ==> plan.targets()[0] == plan.vec@[0]);
        assert(plan.len >= 2 ==> plan.targets()[1] == plan.vec@[1]);
        assert(first + second == self.capacity());
        if n > first + second {
            return Err(Fault::ReceivedTooMuch);
        }
        if n == 0 {
            assert(self.pending() =~= old(self).pending() + data@);
            return Ok(());
        }
        assert(plan.len >= 1);
        assert(self.tail.end == 0);
        let ghost size = self.size_at(self.head.off as int);
        if self.head.is_empty() {
            self.put(0, data, 0, n);
            self.head.off = 0;
            self.head.end = n;
            assert(self.pending() =~= old(self).pending() + data@);
        } else if n <= first {
            let at: usize = self.head.end;
            self.put(at, data, 0, n);
            self.head.end = at + n;
            assert(at - self.head.off >= HEADER_SIZE ==> self.size_at(self.head.off as int)
                == size);
            assert(self.pending() =~= old(self).pending() + data@);
        } else {
            let at: usize = self.head.end;
            self.put(at, data, 0, first);
            self.put(0, data, first, n - first);
            self.head.end = at + first;
            self.tail.off = 0;
            self.tail.end = n - first;
            assert(self.size_at(self.head.off as int) == size);
            assert(self.pending() =~= old(self).pending() + data@);
        }
        Ok(())
    }

    /// Copies `count` bytes of `data`, from `from`, over the bytes of the
    /// buffer from `at`.
    fn put(&mut self, at: usize, data: &[u8], from: usize, count: usize)
        requires
            old(self).buf@.len() == RECV_BUF_SIZE,
            at + count <= RECV_BUF_SIZE,
            from + count <= data@.len(),
        ensures
            final(self).head == old(self).head,
            final(self).tail == old(self).tail,
            final(self).in_use == old(self).in_use,
            final(self).buf@.len() == RECV_BUF_SIZE,
            forall|i: int|
                0 <= i < at || at + count <= i < RECV_BUF_SIZE
                    ==> final(self).buf@[i] == old(self).buf@[i],
            forall|i: int|
                at <= i < at + count ==> #[trigger] final(self).buf@[i] == data@[i - at + from],
    {
        let mut i: usize = 0;
        let data_len: usize = data.len();
        while i < count
            invariant
                i <= count,
                at + count <= RECV_BUF_SIZE,
                from + count <= data_len,
                data_len == data@.len(),
                self.buf@.len() == RECV_BUF_SIZE,
                old(self).buf@.len() == RECV_BUF_SIZE,
                self.head == old(self).head,
                self.tail == old(self).tail,
                self.in_use == old(self).in_use,
                forall|k: int|
                    0 <= k < at || at + i <= k < RECV_BUF_SIZE
                        ==> self.buf@[k] == old(self).buf@[k],
                forall|k: int| at <= k < at + i ==> #[trigger] self.buf@[k] == data@[k - at + from],
            decreases count - i,
        {
            self.buf[at + i] = data[from + i];
            i += 1;
        }
    }
}

impl Default for RecvBuf {
    fn default() -> (r: Self)
        ensures
            r.wf(),
            r.pending() == Seq::<u8>::empty(),
            r.head == (RecvSpan { off: 0, end: 0 }),
            r.tail == (RecvSpan { off: 0, end: 0 }),
            !r.in_use,
    {
        let mut buf: Vec<u8> = Vec::new();
        buf.resize(RECV_BUF_SIZE, 0u8);
        RecvBuf { buf, head: RecvSpan::default(), tail: RecvSpan::default(), in_use: false }
    }
}

} // verus!
