//! The send side of the drive loop: yields, the send vector, and the
//! accounting of what the host took.

use crate::error::Fault;
use crate::packet;
use crate::packet::Code;
use crate::runtime::{link_of, list_ok, zeros, Core};
use crate::send::{Place, SendLink, Share};
use crate::task::{Tasks, Waker};
use vstd::prelude::*;

verus! {

/// The number of yield descriptors at the front of `q`.
pub open spec fn leading_nops(q: Seq<SendLink>, shares: Seq<Share>) -> nat
    decreases q.len(),
{
    if q.len() > 0 && shares[q[0].slot().unwrap() as int].spec_is_nop() {
        1 + leading_nops(q.skip(1), shares)
    } else {
        0
    }
}

/// The ready queue, and the top-level task's request, after the wakers of the
/// first `n` descriptors of `q` were woken, in order.
pub open spec fn woken(
    state: (Seq<usize>, bool),
    next_id: usize,
    q: Seq<SendLink>,
    shares: Seq<Share>,
    n: nat,
) -> (Seq<usize>, bool)
    decreases n,
{
    if n == 0 {
        state
    } else {
        Tasks::woken(
            woken(state, next_id, q, shares, (n - 1) as nat),
            next_id,
            shares[q[n - 1].slot().unwrap() as int].waker,
        )
    }
}

/// A descriptor as it is when it has left a list: with its owner again and
/// without waker; or, where no operation owns it, gone from its slot.
pub open spec fn returned(sh: Share) -> Share {
    if sh.detached {
        Share {
            send: sh.send,
            sent: sh.sent,
            reply: sh.reply,
            waker: None,
            place: Place::Free,
            detached: true,
        }
    } else {
        Share { waker: None, place: Place::Held, ..sh }
    }
}

impl Core {
    /// Takes the descriptor at the front out of the send queue.  Its waker is
    /// handed out with it, and its slot is released if no operation owns it.
    pub fn pop_front(&mut self) -> (r: (SendLink, Option<Waker>))
        requires
            old(self).wf(),
            old(self).send_list@.len() > 0,
        ensures
            final(self).wf(),
            final(self).registry_kept(old(self)),
            final(self).same_services(old(self)),
            final(self).services == old(self).services,
            final(self).tasks == old(self).tasks,
            r.0 == old(self).send_list@[0],
            r.1 == old(self).share(r.0).waker,
            final(self).send_list@ == old(self).send_list@.skip(1),
            final(self).shares@ == old(self).shares@.update(
                r.0.slot().unwrap() as int,
                returned(old(self).share(r.0)),
            ),
    {
        let link = self.send_list.pop_front().unwrap();
        proof {
            assert(old(self).place_valid(Place::Sending));
            assert(old(self).list_at(Place::Sending)[0] == link);
        }
        let i: usize = link.index().unwrap();
        let waker = self.shares[i].waker;
        self.shares[i].waker = None;
        if self.shares[i].detached {
            self.shares[i].place = Place::Free;
            self.free.push(i);
        } else {
            self.shares[i].place = Place::Held;
        }
        proof {
            assert(link == link_of(i as int));
            assert(old(self).slot_ok(i as int));
            assert(old(self).send_list@.skip(1) =~= old(self).send_list@.remove(0));
            assert(self.shares@ =~= old(self).shares@.update(
                i as int,
                returned(old(self).share(link)),
            ));
            let mid = Core {
                free: old(self).free,
                names: self.names,
                services: self.services,
                shares: self.shares,
                send_list: self.send_list,
                tasks: self.tasks,
                padding: self.padding,
            };
            Self::lemma_moved(old(self), &mid, i as int, 0);
            assert forall|k: int| 0 <= k < self.free@.len() implies #[trigger] self.free@[k]
                < self.shares@.len() by {
                if k < old(self).free@.len() {
                    assert(self.free@[k] == old(self).free@[k]);
                }
            }
            assert forall|j: int| 0 <= j < self.shares@.len()
                implies #[trigger] self.slot_ok(j) by {
                assert(mid.slot_ok(j));
            }
            Self::lemma_shares_changed(&mid, self);
        }
        (link, waker)
    }
}

impl Core {
    /// Whether the descriptor at the front of the send queue is a yield.
    pub fn front_is_nop(&self) -> (r: bool)
        requires
            self.wf(),
        ensures
            r == (leading_nops(self.send_list@, self.shares@) > 0),
    {
        match self.send_list.front() {
            Some(link) => {
                proof {
                    assert(self.place_valid(Place::Sending));
                    assert(self.list_at(Place::Sending)[0] == link);
                }
                let i: usize = link.index().unwrap();
                assert(self.slot_ok(i as int));
                self.shares[i].is_nop()
            },
            None => false,
        }
    }

    /// The state after the yield descriptors at the front of the send queue
    /// were taken out of it and their tasks woken, in order.
    pub open spec fn yields_skipped(&self, before: &Core) -> bool {
        let n = leading_nops(before.send_list@, before.shares@);
        &&& self.same_services(before)
        &&& self.services == before.services
        &&& self.send_list@ == before.send_list@.skip(n as int)
        &&& leading_nops(self.send_list@, self.shares@) == 0
        &&& self.shares@.len() == before.shares@.len()
        &&& forall|k: int|
            0 <= k < n ==> self.share(#[trigger] before.send_list@[k]) == returned(
                before.share(before.send_list@[k]),
            )
        &&& forall|i: int|
            0 <= i < before.shares@.len() && !before.send_list@.take(n as int).contains(link_of(i))
                ==> #[trigger] self.shares@[i] == before.shares@[i]
        &&& self.tasks.state() == woken(
            before.tasks.state(),
            before.tasks.next_id(),
            before.send_list@,
            before.shares@,
            n,
        )
        &&& self.tasks.draining() == before.tasks.draining()
        &&& self.tasks.next_id() == before.tasks.next_id()
    }

    /// Takes the yield descriptors at the front of the send queue out of it
    /// and wakes their tasks, in order.  Says whether there was one.
    pub fn skip_yields(&mut self) -> (r: bool)
        requires
            old(self).wf(),
        ensures
            final(self).wf(),
            final(self).registry_kept(old(self)),
            r == (leading_nops(old(self).send_list@, old(self).shares@) > 0),
            final(self).yields_skipped(old(self)),
    {
        let ghost q0 = self.send_list@;
        let ghost s0 = self.shares@;
        let ghost total = leading_nops(q0, s0);
        let ghost mut n: int = 0;
        let mut skipped: bool = false;
        proof {
            assert(q0.skip(0) =~= q0);
            assert(old(self).place_valid(Place::Sending));
            assert(list_ok(q0, s0, Place::Sending));
        }
        while self.front_is_nop()
            invariant
                self.wf(),
                self.same_services(old(self)),
                self.services == old(self).services,
                q0 == old(self).send_list@,
                s0 == old(self).shares@,
                list_ok(q0, s0, Place::Sending),
                total == leading_nops(q0, s0),
                0 <= n <= q0.len(),
                skipped == (n > 0),
                self.send_list@ == q0.skip(n as int),
                n + leading_nops(self.send_list@, self.shares@) == total,
                self.shares@.len() == s0.len(),
                forall|k: int| 0 <= k < n
                    ==> self.share(#[trigger] q0[k]) == returned(s0[q0[k].slot().unwrap() as int]),
                forall|i: int|
                    0 <= i < s0.len() && !q0.take(n as int).contains(link_of(i))
                        ==> #[trigger] self.shares@[i] == s0[i],
                self.tasks.state() == woken(
                    old(self).tasks.state(),
                    old(self).tasks.next_id(),
                    q0,
                    s0,
                    n as nat,
                ),
                self.tasks.draining() == old(self).tasks.draining(),
                self.tasks.next_id() == old(self).tasks.next_id(),
            decreases q0.len() - n,
        {
            let ghost before = *self;
            let ghost link = q0[n as int];
            let ghost slot = link.slot().unwrap() as int;
            proof {
                assert(self.send_list@[0] == link);
                assert(link == link_of(slot));
                // The descriptor was not touched yet.
                if q0.take(n as int).contains(link) {
                    let k = choose|k: int| 0 <= k < n && q0.take(n as int)[k] == link;
                    assert(q0[k] == q0[n as int]);
                    assert(false);
                }
                assert(self.shares@[slot] == s0[slot]);
            }
            let (_, waker) = self.pop_front();
            self.wake(waker);
            proof {
                assert(q0.skip(n as int).skip(1) =~= q0.skip(n + 1));
                assert(q0.take(n + 1) =~= q0.take(n as int).push(link));
                assert forall|k: int| 0 <= k < n + 1 implies self.share(#[trigger] q0[k])
                    == returned(s0[q0[k].slot().unwrap() as int]) by {
                    if k < n {
                        assert(q0[k] != q0[n as int]);
                        assert(q0[k].slot().unwrap() != slot);
                    }
                }
                assert forall|i: int|
                    0 <= i < s0.len() && !q0.take(n + 1).contains(link_of(i))
                        implies #[trigger] self.shares@[i] == s0[i] by {
                    if q0.take(n as int).contains(link_of(i)) {
                        let k = choose|k: int| 0 <= k < n && q0.take(n as int)[k] == link_of(i);
                        assert(q0.take(n + 1)[k] == link_of(i));
                    }
                    if i == slot {
                        assert(q0.take(n + 1)[n as int] == link_of(i));
                    }
                }
                // The rest of the queue still counts the same.
                lemma_nops_frame(q0.skip(n + 1), q0, n + 1, before.shares@, self.shares@, slot);
            }
            proof {
                n = n + 1;
            }
            skipped = true;
        }
        proof {
            assert(q0.take(n as int) =~= q0.take(total as int));
        }
        skipped
    }
}

/// The yields at the front of the rest of a list are the same after a
/// descriptor that is not in the rest has changed.
pub proof fn lemma_nops_frame(
    rest: Seq<SendLink>,
    q: Seq<SendLink>,
    from: int,
    s1: Seq<Share>,
    s2: Seq<Share>,
    slot: int,
)
    requires
        q.no_duplicates(),
        0 <= from <= q.len(),
        rest == q.skip(from),
        s1.len() == s2.len(),
        forall|k: int| from <= k < q.len() ==> (#[trigger] q[k]).slot().is_some()
            && q[k].slot().unwrap() != slot
            && q[k].slot().unwrap() < s1.len(),
        forall|i: int| 0 <= i < s1.len() && i != slot ==> s1[i] == s2[i],
    ensures
        leading_nops(rest, s1) == leading_nops(rest, s2),
    decreases rest.len(),
{
    if rest.len() > 0 {
        assert(rest[0] == q[from]);
        assert(rest.skip(1) =~= q.skip(from + 1));
        lemma_nops_frame(rest.skip(1), q, from + 1, s1, s2, slot);
    }
}

/// What goes to the host in one call: the first `len` of three spans, in
/// order.
pub struct SendVec<'a> {
    pub vec: [&'a [u8]; 3],
    pub len: usize,
}

impl<'a> SendVec<'a> {
    /// The bytes of the spans in use, in order.
    pub open spec fn flat(&self) -> Seq<u8> {
        if self.len == 0 {
            Seq::empty()
        } else if self.len == 1 {
            self.vec@[0]@
        } else if self.len == 2 {
            self.vec@[0]@ + self.vec@[1]@
        } else {
            self.vec@[0]@ + self.vec@[1]@ + self.vec@[2]@
        }
    }
}

/// A packet as it goes over the wire: header, content, and zero bytes up to
/// the alignment.
pub open spec fn wire(sh: Share) -> Seq<u8> {
    sh.spec_packet() + zeros(packet::spec_pad_len(sh.spec_unaligned_send_len()) as nat)
}

impl Core {
    /// What is left to send of the active descriptor.
    pub open spec fn unsent(&self) -> Seq<u8> {
        if self.send_list@.len() > 0 {
            let sh = self.share(self.send_list@[0]);
            wire(sh).skip(sh.sent as int)
        } else {
            Seq::empty()
        }
    }

    /// The send vector: what is left of the active descriptor's header, of
    /// its content, and of its padding, each only if something is left of
    /// it.
    pub fn send_vec(&self) -> (r: SendVec<'_>)
        requires
            self.wf(),
        ensures
            r.len <= 3,
            r.flat() == self.unsent(),
            forall|k: int| 0 <= k < r.len ==> (#[trigger] r.vec@[k])@.len() > 0,
    {
        let empty: &[u8] = &self.padding[0..0];
        let mut vec: [&[u8]; 3] = [empty, empty, empty];
        let mut len: usize = 0;
        let link = match self.send_list.front() {
            Some(link) => link,
            None => {
                return SendVec { vec, len };
            },
        };
        proof {
            assert(self.place_valid(Place::Sending));
            assert(self.list_at(Place::Sending)[0] == link);
        }
        let i: usize = link.index().unwrap();
        assert(self.slot_ok(i as int));
        let share = &self.shares[i];
        let sent: usize = share.sent;
        let h: usize = share.send[0].buf_len();
        let c: usize = share.send[1].buf_len();
        let total: usize = h + c;
        let pad: usize = packet::align(total) - total;
        if sent < h {
            vec[len] = &share.send[0].buf[sent..h];
            len += 1;
        }
        let second: usize = if sent > h {
            sent - h
        } else {
            0
        };
        if second < c {
            vec[len] = &share.send[1].buf[second..c];
            len += 1;
        }
        let third: usize = if sent > total {
            sent - total
        } else {
            0
        };
        if third < pad {
            vec[len] = &self.padding[0..pad - third];
            len += 1;
        }
        let r = SendVec { vec, len };
        assert(r.flat() =~= self.unsent());
        r
    }
}

impl Core {
    /// What `sent` answers for `n` bytes: the fault, if any.
    pub open spec fn sent_fault(&self, n: usize) -> Option<Fault> {
        if n > self.unsent().len() {
            Some(Fault::SentTooMuch)
        } else {
            None
        }
    }

    /// Whether the host cannot have taken `n` bytes of the send vector.
    pub fn sent_checks(&self, n: usize) -> (r: bool)
        requires
            self.wf(),
        ensures
            r == self.sent_fault(n).is_some(),
    {
        match self.send_list.front() {
            Some(link) => {
                proof {
                    assert(self.place_valid(Place::Sending));
                    assert(self.list_at(Place::Sending)[0] == link);
                }
                let i: usize = link.index().unwrap();
                assert(self.slot_ok(i as int));
                let total: usize = self.shares[i].unaligned_send_len();
                let aligned: usize = packet::align(total);
                assert(wire(self.shares@[i as int]).len() == aligned);
                n > aligned - self.shares[i].sent
            },
            None => n > 0,
        }
    }

    /// Whether `n` more bytes complete the active descriptor.
    pub open spec fn completes(&self, n: usize) -> bool {
        n > 0 && n == self.unsent().len()
    }

    /// The state after `n` bytes, at least one, of the active descriptor were
    /// sent.
    pub open spec fn accounted(&self, before: &Core, n: usize) -> bool {
        let link = before.send_list@[0];
        let sh = before.share(link);
        let advanced = Share { sent: (sh.sent + n) as usize, ..sh };
        &&& self.tasks.kept(&before.tasks)
        &&& self.same_services(before)
        &&& self.shares@.len() == before.shares@.len()
        &&& forall|i: int|
            0 <= i < before.shares@.len() && i != link.slot().unwrap() ==> self.shares@[i]
                == before.shares@[i]
        &&& !before.completes(n) ==> self.share(link) == advanced && self.send_list
            == before.send_list && self.services == before.services && self.tasks == before.tasks
        &&& before.completes(n) ==> self.send_list@ == before.send_list@.skip(1)
        &&& before.completes(n) && sh.reply.x == -1 ==> {
            let c = sh.spec_target().unwrap();
            &&& self.share(link) == (Share { place: Place::Replying(c), ..advanced })
            &&& self.tasks == before.tasks
            &&& forall|p: Place| #[trigger]
                before.place_valid(p) && p != Place::Sending ==> self.list_at(p) == (if p
                    == Place::Replying(c) {
                    before.list_at(p).push(link)
                } else {
                    before.list_at(p)
                })
        }
        &&& before.completes(n) && sh.reply.x != -1 ==> {
            &&& self.share(link) == returned(advanced)
            &&& self.services == before.services
            &&& self.tasks.state() == Tasks::woken(
                before.tasks.state(),
                before.tasks.next_id(),
                sh.waker,
            )
        }
    }

    /// Accounts for `n` bytes that the host took of the send vector.  A
    /// descriptor that is thereby sent whole leaves the send queue: for the
    /// end of its service's reply queue if it expects a reply; if not, its
    /// task is woken.
    pub fn sent(&mut self, n: usize) -> (r: Result<(), Fault>)
        requires
            old(self).wf(),
        ensures
            final(self).wf(),
            final(self).registry_kept(old(self)),
            final(self).same_services(old(self)),
            final(self).shares@.len() == old(self).shares@.len(),
            match r {
                Err(e) => old(self).sent_fault(n) == Some(e) && *final(self) == *old(self),
                Ok(()) => old(self).sent_fault(n).is_none(),
            },
            r.is_ok() && n == 0 ==> *final(self) == *old(self),
            r.is_ok() && n > 0 ==> final(self).accounted(old(self), n),
    {
        let link = match self.send_list.front() {
            Some(link) => link,
            None => {
                if n > 0 {
                    return Err(Fault::SentTooMuch);
                }
                return Ok(());
            },
        };
        proof {
            assert(self.place_valid(Place::Sending));
            assert(self.list_at(Place::Sending)[0] == link);
        }
        let i: usize = link.index().unwrap();
        assert(self.slot_ok(i as int));
        assert(link == link_of(i as int));
        let total: usize = self.shares[i].unaligned_send_len();
        let aligned: usize = packet::align(total);
        let remaining: usize = aligned - self.shares[i].sent;
        assert(wire(self.shares@[i as int]).len() == aligned);
        assert(self.unsent().len() == remaining);
        if n > remaining {
            return Err(Fault::SentTooMuch);
        }
        if n == 0 {
            return Ok(());
        }
        self.shares[i].sent = self.shares[i].sent + n;
        let ghost mid = *self;
        proof {
            assert forall|j: int| 0 <= j < self.shares@.len()
                implies #[trigger] self.slot_ok(j) by {
                assert(old(self).slot_ok(j));
            }
            Self::lemma_shares_changed(old(self), self);
        }
        if n < remaining {
            return Ok(());
        }
        if self.shares[i].reply.is_expected() {
            let c: Code = self.shares[i].code();
            self.send_list.pop_front();
            self.shares[i].place = Place::Replying(c);
            proof {
                assert(mid.avail(c));
            }
            self.services[c as usize].replies.push_back(link);
            proof {
                assert(mid.send_list@.skip(1) =~= mid.send_list@.remove(0));
                Self::lemma_moved(&mid, self, i as int, 0);
            }
        } else {
            let (_, waker) = self.pop_front();
            self.wake(waker);
        }
        Ok(())
    }
}

} // verus!
