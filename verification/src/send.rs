//! Send descriptors, the table that holds them, and the FIFO lists that link
//! them.

use crate::gate::Ciovec;
use crate::packet;
use crate::packet::{spec_align, spec_code, Code, HEADER_SIZE};
use crate::task::Waker;
use std::collections::VecDeque;
use vstd::prelude::*;

verus! {

/// Whether a descriptor awaits a reply, and where the reply is once it has
/// come.
#[derive(Clone, Copy, Debug, PartialEq, Eq, Structural)]
pub struct Reply {
    pub x: isize,
}

impl Reply {
    /// The offset of the reply in the receive buffer, once it has come.
    pub open spec fn spec_offset(&self) -> Option<usize> {
        if self.x >= 0 {
            Some(self.x as usize)
        } else {
            None
        }
    }

    pub fn expected() -> (r: Self)
        ensures
            r.x == -1,
    {
        Reply { x: -1 }
    }

    pub fn is_expected(&self) -> (r: bool)
        ensures
            r == (self.x == -1),
    {
        self.x == -1
    }

    pub fn set_offset(&mut self, offset: usize)
        requires
            offset <= isize::MAX,
        ensures
            final(self).spec_offset() == Some(offset),
            final(self).x == offset,
    {
        self.x = offset as isize;
    }

    pub fn offset(&self) -> (r: Option<usize>)
        ensures
            r == self.spec_offset(),
    {
        if self.x >= 0 {
            Some(self.x as usize)
        } else {
            None
        }
    }
}

impl Default for Reply {
    /// No reply is expected.
    fn default() -> (r: Self)
        ensures
            r.x == -2,
    {
        Reply { x: -2 }
    }
}

/// Where a descriptor is.
#[derive(Clone, Copy, Debug, PartialEq, Eq, Structural)]
pub enum Place {
    /// The slot holds no descriptor.
    Free,
    /// With the operation that owns it, in no list.
    Held,
    /// In the send queue.
    Sending,
    /// In the blocked queue of the service with this code.
    Blocked(Code),
    /// In the reply queue of the service with this code.
    Replying(Code),
}

/// A send descriptor: one packet on its way out.
pub struct Share {
    pub send: [Ciovec; 2],
    pub sent: usize,
    pub reply: Reply,
    pub waker: Option<Waker>,
    pub place: Place,
    /// No operation owns the descriptor: its slot is released once it is
    /// sent.
    pub detached: bool,
}

impl Share {
    /// The bytes of the first span: the packet's header, or nothing.
    pub open spec fn spec_header(&self) -> Seq<u8> {
        self.send@[0]@
    }

    /// The bytes of the second span: the packet's content.
    pub open spec fn spec_content(&self) -> Seq<u8> {
        self.send@[1]@
    }

    /// The packet's bytes without padding.
    pub open spec fn spec_packet(&self) -> Seq<u8> {
        self.spec_header() + self.spec_content()
    }

    /// The service that the packet is addressed to, where it has a header.
    pub open spec fn spec_target(&self) -> Option<Code> {
        if self.spec_header().len() >= HEADER_SIZE {
            Some(spec_code(self.spec_header()))
        } else {
            None
        }
    }

    pub open spec fn spec_unaligned_send_len(&self) -> int {
        (self.spec_header().len() + self.spec_content().len()) as int
    }

    pub open spec fn spec_is_sent(&self) -> bool {
        self.sent == spec_align(self.spec_unaligned_send_len())
    }

    /// A descriptor with nothing to send and no reply to wait for: a yield.
    pub open spec fn spec_is_nop(&self) -> bool {
        self.reply.x != -1 && self.spec_unaligned_send_len() == 0
    }

    /// The packet's length with its padding fits the size field, and no more
    /// was sent than that.
    pub open spec fn wf(&self) -> bool {
        &&& self.spec_unaligned_send_len() + 7 <= u32::MAX
        &&& self.sent <= spec_align(self.spec_unaligned_send_len())
    }

    pub fn header(&self) -> (r: &[u8])
        ensures
            r@ == self.spec_header(),
    {
        self.send[0].buf.as_slice()
    }

    pub fn code(&self) -> (r: Code)
        requires
            self.spec_header().len() >= HEADER_SIZE,
        ensures
            Some(r) == self.spec_target(),
    {
        packet::code(self.header())
    }

    /// The service that the packet is addressed to; a yield has none.
    pub fn target(&self) -> (r: Option<Code>)
        ensures
            r == self.spec_target(),
    {
        if self.send[0].buf_len() >= HEADER_SIZE {
            Some(self.code())
        } else {
            None
        }
    }

    pub fn unaligned_send_len(&self) -> (r: usize)
        requires
            self.wf(),
        ensures
            r == self.spec_unaligned_send_len(),
    {
        let mut len: usize = 0;
        let mut i: usize = 0;
        while i < 2
            invariant
                i <= 2,
                self.wf(),
                len == (if i == 0 {
                    0
                } else if i == 1 {
                    self.spec_header().len() as int
                } else {
                    self.spec_unaligned_send_len()
                }),
            decreases 2 - i,
        {
            len += self.send[i].buf_len();
            i += 1;
        }
        len
    }

    pub fn is_sent(&self) -> (r: bool)
        requires
            self.wf(),
        ensures
            r == self.spec_is_sent(),
    {
        self.sent == packet::align(self.unaligned_send_len())
    }

    pub fn is_nop(&self) -> (r: bool)
        requires
            self.wf(),
        ensures
            r == self.spec_is_nop(),
    {
        !self.reply.is_expected() && self.unaligned_send_len() == 0
    }
}

impl Share {
    /// A descriptor for a packet, held by its owner, that expects no reply.
    pub fn packet(header: Vec<u8>, content: Vec<u8>) -> (r: Self)
        requires
            header@.len() + content@.len() + 7 <= u32::MAX,
        ensures
            r.wf(),
            r.spec_header() == header@,
            r.spec_content() == content@,
            r.sent == 0,
            r.reply.x == -2,
            r.waker.is_none(),
            r.place == Place::Held,
            !r.detached,
    {
        Share {
            send: [Ciovec { buf: header }, Ciovec { buf: content }],
            sent: 0,
            reply: Reply::default(),
            waker: None,
            place: Place::Held,
            detached: false,
        }
    }
}

impl Default for Share {
    /// An empty descriptor that expects no reply, held by its owner.
    fn default() -> (r: Self)
        ensures
            r.wf(),
            r.spec_header() == Seq::<u8>::empty(),
            r.spec_content() == Seq::<u8>::empty(),
            r.sent == 0,
            r.reply.x == -2,
            r.waker.is_none(),
            r.place == Place::Held,
            !r.detached,
    {
        Share {
            send: [Ciovec::default(), Ciovec::default()],
            sent: 0,
            reply: Reply::default(),
            waker: None,
            place: Place::Held,
            detached: false,
        }
    }
}

/// A link to a descriptor: its place in the table of descriptors.
#[derive(Clone, Copy, Debug, PartialEq, Eq, Structural)]
pub struct SendLink {
    pub addr: usize,
}

impl SendLink {
    /// The slot that the link names, if it names one.
    pub open spec fn slot(&self) -> Option<usize> {
        if self.addr != 0 && self.addr != usize::MAX {
            Some((self.addr - 1) as usize)
        } else {
            None
        }
    }

    pub fn new(slot: usize) -> (r: Self)
        requires
            slot < usize::MAX - 1,
        ensures
            r.slot() == Some(slot),
            r.addr == slot + 1,
    {
        SendLink { addr: slot + 1 }
    }

    pub fn none() -> (r: Self)
        ensures
            r.addr == 0,
    {
        SendLink { addr: 0 }
    }

    pub fn invalid() -> (r: Self)
        ensures
            r.addr == usize::MAX,
    {
        SendLink { addr: usize::MAX }
    }

    pub fn is_valid(&self) -> (r: bool)
        ensures
            r == (self.addr != usize::MAX),
    {
        self.addr != usize::MAX
    }

    pub fn is_none(&self) -> (r: bool)
        ensures
            r == (self.addr == 0),
    {
        self.addr == 0
    }

    /// The slot that the link names, if it names one.
    pub fn index(&self) -> (r: Option<usize>)
        ensures
            r == self.slot(),
    {
        if self.addr != 0 && self.addr != usize::MAX {
            Some(self.addr - 1)
        } else {
            None
        }
    }

    /// Hands the link out and leaves none behind.
    pub fn take(&mut self) -> (r: Self)
        ensures
            r == *old(self),
            final(self).addr == 0,
    {
        let link = *self;
        self.addr = 0;
        link
    }
}

/// A FIFO list of links.  A list that is not valid holds nothing: a service
/// that is available has such a list in place of its blocked queue.
pub struct SendList {
    pub links: VecDeque<SendLink>,
    pub valid: bool,
}

impl View for SendList {
    type V = Seq<SendLink>;

    open spec fn view(&self) -> Seq<SendLink> {
        self.links@
    }
}

impl SendList {
    pub open spec fn wf(&self) -> bool {
        !self.valid ==> self@.len() == 0
    }

    pub fn invalid() -> (r: Self)
        ensures
            r.wf(),
            !r.valid,
            r@ == Seq::<SendLink>::empty(),
    {
        SendList { links: VecDeque::new(), valid: false }
    }

    pub fn is_valid(&self) -> (r: bool)
        ensures
            r == self.valid,
    {
        self.valid
    }

    /// Hands out the list as it is and leaves an invalid one behind.
    pub fn invalidate_unchecked(&mut self) -> (r: Self)
        ensures
            r@ == old(self)@,
            r.valid == old(self).valid,
            !final(self).valid,
            final(self)@ == Seq::<SendLink>::empty(),
    {
        let mut valid = SendList::invalid();
        std::mem::swap(self, &mut valid);
        valid
    }

    pub fn len(&self) -> (r: usize)
        ensures
            r == self@.len(),
    {
        self.links.len()
    }

    /// The link at the front, if there is one.
    pub fn front(&self) -> (r: Option<SendLink>)
        ensures
            r == (if self@.len() > 0 {
                Some(self@[0])
            } else {
                None
            }),
    {
        if self.links.len() > 0 {
            Some(self.links[0])
        } else {
            None
        }
    }

    pub fn push_back(&mut self, new: SendLink)
        ensures
            final(self)@ == old(self)@.push(new),
            final(self).valid == old(self).valid,
    {
        self.links.push_back(new);
    }

    pub fn pop_front(&mut self) -> (r: Option<SendLink>)
        ensures
            final(self).valid == old(self).valid,
            old(self)@.len() == 0 ==> r.is_none() && final(self)@ == old(self)@,
            old(self)@.len() > 0 ==> r == Some(old(self)@[0]) && final(self)@ == old(self)@.skip(1),
    {
        let r = self.links.pop_front();
        proof {
            if old(self)@.len() > 0 {
                assert(self@ =~= old(self)@.skip(1));
            }
        }
        r
    }

    /// Takes out the link at `index`; the others keep their order.
    pub fn remove(&mut self, index: usize) -> (r: SendLink)
        requires
            index < old(self)@.len(),
        ensures
            r == old(self)@[index as int],
            final(self)@ == old(self)@.remove(index as int),
            final(self).valid == old(self).valid,
    {
        if index == 0 {
            let r = self.pop_front();
            assert(self@ =~= old(self)@.remove(0));
            r.unwrap()
        } else {
            self.remove_nonzero_index(index)
        }
    }

    fn remove_nonzero_index(&mut self, index: usize) -> (r: SendLink)
        requires
            0 < index < old(self)@.len(),
        ensures
            r == old(self)@[index as int],
            final(self)@ == old(self)@.remove(index as int),
            final(self).valid == old(self).valid,
    {
        let r = self.links.remove(index);
        r.unwrap()
    }
}

impl Default for SendList {
    /// An empty list.
    fn default() -> (r: Self)
        ensures
            r.wf(),
            r.valid,
            r@ == Seq::<SendLink>::empty(),
    {
        SendList { links: VecDeque::new(), valid: true }
    }
}

} // verus!
