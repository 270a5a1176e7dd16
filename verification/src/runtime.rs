//! The heart of the runtime's state: the table of services, the table of send
//! descriptors, the send queue and the ready queue, with what keeps them in
//! order.

use crate::error::Fault;
use crate::packet::{Code, ALIGNMENT, SERVICES_HEADER_SIZE};
use crate::send::{Place, SendLink, SendList, Share};
use crate::streams::Recv;
use crate::task::{Tasks, Waker};
use vstd::prelude::*;
use vstd::string::StringSliceAdditionalSpecFns;

verus! {

/// The most services that can be registered.
pub const MAX_SERVICES: usize = 32766;

/// The longest service name, in bytes.
pub const MAX_NAME_LEN: usize = 127;

/// One registered service.
pub struct ServiceState {
    /// The blocked queue while the service is unavailable; not valid while it
    /// is available.
    pub avail_or_blocked: SendList,
    /// The calls that were sent and wait for their replies, oldest first.
    pub replies: SendList,
    pub info_recv: Recv,
}

impl ServiceState {
    pub open spec fn spec_is_avail(&self) -> bool {
        !self.avail_or_blocked.valid
    }

    pub fn new_unavail() -> (r: Self)
        ensures
            !r.spec_is_avail(),
            r.avail_or_blocked@ == Seq::<SendLink>::empty(),
            r.replies@ == Seq::<SendLink>::empty(),
            r.replies.valid,
            r.info_recv == Recv::Empty,
    {
        ServiceState {
            avail_or_blocked: SendList::default(),
            replies: SendList::default(),
            info_recv: Recv::Empty,
        }
    }

    pub fn is_avail(&self) -> (r: bool)
        ensures
            r == self.spec_is_avail(),
    {
        !self.avail_or_blocked.is_valid()
    }

    /// Marks the service available and hands out what was blocked.
    pub fn set_avail_unchecked(&mut self) -> (r: SendList)
        ensures
            r@ == old(self).avail_or_blocked@,
            final(self).spec_is_avail(),
            final(self).avail_or_blocked@ == Seq::<SendLink>::empty(),
            final(self).replies == old(self).replies,
            final(self).info_recv == old(self).info_recv,
    {
        self.avail_or_blocked.invalidate_unchecked()
    }

    /// Marks the service unavailable, with an empty blocked queue.
    pub fn set_unavail_unchecked(&mut self)
        ensures
            !final(self).spec_is_avail(),
            final(self).avail_or_blocked@ == Seq::<SendLink>::empty(),
            final(self).replies == old(self).replies,
            final(self).info_recv == old(self).info_recv,
    {
        self.avail_or_blocked = SendList::default();
    }
}

/// `n` zero bytes.
pub open spec fn zeros(n: nat) -> Seq<u8> {
    Seq::new(n, |i: int| 0u8)
}

/// The link that names slot `slot`.
pub open spec fn link_of(slot: int) -> SendLink {
    SendLink { addr: (slot + 1) as usize }
}

/// Every link of `q` names a descriptor that is in place `place`, and none
/// occurs twice.
pub open spec fn list_ok(q: Seq<SendLink>, shares: Seq<Share>, place: Place) -> bool {
    &&& q.no_duplicates()
    &&& forall|k: int|
        0 <= k < q.len() ==> {
            let l = #[trigger] q[k];
            &&& l.slot().is_some()
            &&& l.slot().unwrap() < shares.len()
            &&& shares[l.slot().unwrap() as int].place == place
        }
}

/// Every descriptor in place `place` has its link in `q`.
pub open spec fn list_full(q: Seq<SendLink>, shares: Seq<Share>, place: Place) -> bool {
    forall|i: int|
        0 <= i < shares.len() && (#[trigger] shares[i]).place == place ==> q.contains(link_of(i))
}

/// A list stays in order when the descriptors in its place stay there and no
/// other descriptor comes to it.
pub proof fn lemma_list_frame(q: Seq<SendLink>, s1: Seq<Share>, s2: Seq<Share>, place: Place)
    requires
        list_ok(q, s1, place),
        list_full(q, s1, place),
        s1.len() <= s2.len(),
        forall|i: int| 0 <= i < s1.len()
            ==> ((#[trigger] s1[i]).place == place <==> s2[i].place == place),
        forall|i: int| s1.len() <= i < s2.len() ==> (#[trigger] s2[i]).place != place,
    ensures
        list_ok(q, s2, place),
        list_full(q, s2, place),
{
    assert forall|k: int| 0 <= k < q.len() implies {
        let l = #[trigger] q[k];
        &&& l.slot().is_some()
        &&& l.slot().unwrap() < s2.len()
        &&& s2[l.slot().unwrap() as int].place == place
    } by {
        let i = q[k].slot().unwrap() as int;
        assert(s1[i].place == place);
    }
    assert forall|i: int| 0 <= i < s2.len() && (#[trigger] s2[i]).place == place implies q.contains(
        link_of(i),
    ) by {
        assert(s1[i].place == place);
    }
}

/// A descriptor that comes to a list's place goes to the list's end.
pub proof fn lemma_list_push(
    q: Seq<SendLink>,
    s1: Seq<Share>,
    s2: Seq<Share>,
    place: Place,
    slot: int,
)
    requires
        list_ok(q, s1, place),
        list_full(q, s1, place),
        s1.len() == s2.len(),
        0 <= slot < s1.len(),
        slot < usize::MAX - 1,
        s1[slot].place != place,
        s2[slot].place == place,
        forall|i: int| 0 <= i < s1.len() && i != slot
            ==> ((#[trigger] s1[i]).place == place <==> s2[i].place == place),
    ensures
        list_ok(q.push(link_of(slot)), s2, place),
        list_full(q.push(link_of(slot)), s2, place),
        !q.contains(link_of(slot)),
{
    let q2 = q.push(link_of(slot));
    if q.contains(link_of(slot)) {
        let k = choose|k: int| 0 <= k < q.len() && q[k] == link_of(slot);
        assert(q[k].slot().unwrap() == slot);
        assert(false);
    }
    assert forall|k: int| 0 <= k < q2.len() implies {
        let l = #[trigger] q2[k];
        &&& l.slot().is_some()
        &&& l.slot().unwrap() < s2.len()
        &&& s2[l.slot().unwrap() as int].place == place
    } by {
        if k < q.len() {
            assert(q2[k] == q[k]);
            let i = q[k].slot().unwrap() as int;
            assert(s1[i].place == place);
        }
    }
    assert forall|i: int, j: int| 0 <= i < q2.len() && 0 <= j < q2.len() && i != j implies q2[i]
        != q2[j] by {
        if i < q.len() && j < q.len() {
        } else if i < q.len() {
            assert(q.contains(q[i]));
        } else {
            assert(q.contains(q[j]));
        }
    }
    assert forall|i: int| 0 <= i < s2.len() && (#[trigger] s2[i]).place == place
        implies q2.contains(
        link_of(i),
    ) by {
        if i == slot {
            assert(q2[q.len() as int] == link_of(slot));
        } else {
            assert(s1[i].place == place);
            let k = choose|k: int| 0 <= k < q.len() && q[k] == link_of(i);
            assert(q2[k] == link_of(i));
        }
    }
}

/// A descriptor that leaves a list's place leaves the list; the others keep
/// their order.
pub proof fn lemma_list_remove(
    q: Seq<SendLink>,
    s1: Seq<Share>,
    s2: Seq<Share>,
    place: Place,
    at: int,
)
    requires
        list_ok(q, s1, place),
        list_full(q, s1, place),
        s1.len() == s2.len(),
        s1.len() < usize::MAX - 1,
        0 <= at < q.len(),
        s2[q[at].slot().unwrap() as int].place != place,
        forall|i: int|
            0 <= i < s1.len() && i != q[at].slot().unwrap() ==> ((#[trigger] s1[i]).place == place
                <==> s2[i].place == place),
    ensures
        list_ok(q.remove(at), s2, place),
        list_full(q.remove(at), s2, place),
{
    let q2 = q.remove(at);
    let slot = q[at].slot().unwrap() as int;
    assert forall|k: int| 0 <= k < q2.len() implies {
        let l = #[trigger] q2[k];
        &&& l.slot().is_some()
        &&& l.slot().unwrap() < s2.len()
        &&& s2[l.slot().unwrap() as int].place == place
    } by {
        let k1 = if k < at {
            k
        } else {
            k + 1
        };
        assert(q2[k] == q[k1]);
        let i = q[k1].slot().unwrap() as int;
        assert(s1[i].place == place);
        if i == slot {
            assert(q[k1].addr == q[at].addr);
            assert(q[k1] == q[at]);
        }
    }
    assert forall|i: int, j: int| 0 <= i < q2.len() && 0 <= j < q2.len() && i != j implies q2[i]
        != q2[j] by {
        let i1 = if i < at {
            i
        } else {
            i + 1
        };
        let j1 = if j < at {
            j
        } else {
            j + 1
        };
        assert(q2[i] == q[i1]);
        assert(q2[j] == q[j1]);
    }
    assert forall|i: int| 0 <= i < s2.len() && (#[trigger] s2[i]).place == place
        implies q2.contains(
        link_of(i),
    ) by {
        assert(i != slot);
        assert(s1[i].place == place);
        let k = choose|k: int| 0 <= k < q.len() && q[k] == link_of(i);
        assert(k != at);
        let k2 = if k < at {
            k
        } else {
            k - 1
        };
        assert(q2[k2] == link_of(i));
    }
}

/// The runtime's state.
pub struct Core {
    /// The names of the registered services; a service's code is its index.
    pub names: Vec<Vec<u8>>,
    pub services: Vec<ServiceState>,
    /// The send descriptors.  Operations hold links to the slots of theirs.
    pub shares: Vec<Share>,
    /// Slots that were released, to be used again.
    pub free: Vec<usize>,
    /// The send queue.  The descriptor at its front is the active one.
    pub send_list: SendList,
    pub tasks: Tasks,
    /// Zero bytes, from which packets are padded.
    pub padding: Vec<u8>,
}

impl Core {
    /// Whether `p` is the place of a list: the send queue, or the blocked or
    /// reply queue of a registered service.
    pub open spec fn place_valid(&self, p: Place) -> bool {
        match p {
            Place::Free => false,
            Place::Held => false,
            Place::Sending => true,
            Place::Blocked(c) => 0 <= c < self.services@.len(),
            Place::Replying(c) => 0 <= c < self.services@.len(),
        }
    }

    /// The list of place `p`.
    pub open spec fn list_at(&self, p: Place) -> Seq<SendLink> {
        match p {
            Place::Free => Seq::empty(),
            Place::Held => Seq::empty(),
            Place::Sending => self.send_list@,
            Place::Blocked(c) => self.services@[c as int].avail_or_blocked@,
            Place::Replying(c) => self.services@[c as int].replies@,
        }
    }

    /// Whether the service with code `c` is registered and available.
    pub open spec fn avail(&self, c: Code) -> bool {
        0 <= c < self.services@.len() && self.services@[c as int].spec_is_avail()
    }

    /// Whether a packet for `target` may be in the send queue: a packet
    /// without header, one for the registry, or one for a service that is
    /// available.
    pub open spec fn sendable(&self, target: Option<Code>) -> bool {
        match target {
            None => true,
            Some(c) => c < 0 || self.avail(c),
        }
    }

    /// What holds of the descriptor in slot `i`.  One in the send queue is
    /// addressed to no service that is unavailable, and to a service if it
    /// expects a reply.  One in a blocked queue is
    /// addressed to that queue's service, which is unavailable.  One in a
    /// reply queue is addressed to that queue's service, was sent whole and
    /// expects a reply.
    pub open spec fn slot_ok(&self, i: int) -> bool {
        let sh = self.shares@[i];
        &&& sh.wf()
        &&& match sh.place {
            Place::Free => true,
            Place::Held => true,
            Place::Sending => sh.reply.x < 0 && self.sendable(sh.spec_target()) && (sh.reply.x == -1
                ==> sh.spec_target().is_some() && self.avail(sh.spec_target().unwrap())
                && !sh.detached),
            Place::Blocked(c) => 0 <= c < self.services@.len() && !self.avail(c)
                && sh.spec_target() == Some(c) && sh.reply.x < 0 && (sh.reply.x == -1
                ==> !sh.detached),
            Place::Replying(c) => 0 <= c < self.services@.len() && sh.spec_target() == Some(c)
                && sh.reply.x == -1 && sh.spec_is_sent() && !sh.detached,
        }
    }

    /// The descriptors and the lists agree: each list holds, once each,
    /// exactly the descriptors whose place it is.
    pub open spec fn queues_wf(&self) -> bool {
        &&& self.shares@.len() < usize::MAX - 1
        &&& self.services@.len() <= MAX_SERVICES
        &&& self.send_list.valid
        &&& forall|k: int| 0 <= k < self.free@.len()
            ==> #[trigger] self.free@[k] < self.shares@.len()
        &&& forall|i: int| 0 <= i < self.shares@.len() ==> #[trigger] self.slot_ok(i)
        &&& forall|c: int|
            0 <= c < self.services@.len() ==> (#[trigger] self.services@[c]).avail_or_blocked.wf()
                && self.services@[c].replies.valid
        &&& forall|p: Place| #[trigger]
            self.place_valid(p) ==> list_ok(self.list_at(p), self.shares@, p) && list_full(
                self.list_at(p),
                self.shares@,
                p,
            )
    }

    /// Whether `link` names a descriptor that its owner holds, in no list.
    pub open spec fn held(&self, link: SendLink) -> bool {
        &&& link.slot().is_some()
        &&& link.slot().unwrap() < self.shares@.len()
        &&& self.shares@[link.slot().unwrap() as int].place == Place::Held
    }

    /// The descriptor that `link` names.
    pub open spec fn share(&self, link: SendLink) -> Share {
        self.shares@[link.slot().unwrap() as int]
    }

    /// No service was registered: the names and the codes are as before.
    pub open spec fn registry_kept(&self, before: &Core) -> bool {
        self.names == before.names && self.services@.len() == before.services@.len()
    }

    /// The lists and the services are as before.
    pub open spec fn same_lists(&self, before: &Core) -> bool {
        &&& self.services == before.services
        &&& self.names == before.names
        &&& self.send_list == before.send_list
        &&& self.padding == before.padding
    }

    /// Descriptors changed, but none came to a list's place or left one.
    pub proof fn lemma_shares_changed(c1: &Core, c2: &Core)
        requires
            c1.queues_wf(),
            c2.same_lists(c1),
            c1.shares@.len() <= c2.shares@.len() < usize::MAX - 1,
            forall|k: int| 0 <= k < c2.free@.len() ==> #[trigger] c2.free@[k] < c2.shares@.len(),
            forall|i: int| 0 <= i < c2.shares@.len() ==> #[trigger] c2.slot_ok(i),
            forall|i: int|
                0 <= i < c1.shares@.len()
                    ==> (#[trigger] c1.shares@[i]).place == c2.shares@[i].place
                    || ((c1.shares@[i].place == Place::Free || c1.shares@[i].place == Place::Held)
                    && (c2.shares@[i].place == Place::Free || c2.shares@[i].place == Place::Held)),
            forall|i: int|
                c1.shares@.len() <= i < c2.shares@.len() ==> (#[trigger] c2.shares@[i]).place
                    == Place::Free || c2.shares@[i].place == Place::Held,
        ensures
            c2.queues_wf(),
    {
        assert forall|p: Place| #[trigger] c2.place_valid(p) implies list_ok(
            c2.list_at(p),
            c2.shares@,
            p,
        ) && list_full(c2.list_at(p), c2.shares@, p) by {
            assert(c1.place_valid(p));
            assert(c1.list_at(p) == c2.list_at(p));
            lemma_list_frame(c1.list_at(p), c1.shares@, c2.shares@, p);
        }
    }

    /// One descriptor went from one place to another: out of the list of the
    /// first, if that is a list's place, and to the end of the list of the
    /// second, if that is one.
    pub proof fn lemma_moved(c1: &Core, c2: &Core, slot: int, at: int)
        requires
            c1.queues_wf(),
            c2.names == c1.names,
            c2.free == c1.free,
            c2.send_list.valid,
            c1.shares@.len() == c2.shares@.len(),
            c1.services@.len() == c2.services@.len(),
            0 <= slot < c1.shares@.len(),
            forall|i: int| 0 <= i < c2.shares@.len() && i != slot
                ==> c2.shares@[i] == c1.shares@[i],
            c1.shares@[slot].place != c2.shares@[slot].place,
            c2.slot_ok(slot),
            forall|c: int|
                0 <= c < c1.services@.len() ==> (#[trigger] c2.services@[c]).avail_or_blocked.valid
                    == c1.services@[c].avail_or_blocked.valid && c2.services@[c].replies.valid,
            c1.place_valid(c1.shares@[slot].place) ==> 0 <= at < c1.list_at(
                c1.shares@[slot].place,
            ).len() && c1.list_at(c1.shares@[slot].place)[at] == link_of(slot),
            forall|p: Place| #[trigger]
                c1.place_valid(p) ==> c2.list_at(p) == (if p == c1.shares@[slot].place {
                    c1.list_at(p).remove(at)
                } else if p == c2.shares@[slot].place {
                    c1.list_at(p).push(link_of(slot))
                } else {
                    c1.list_at(p)
                }),
        ensures
            c2.queues_wf(),
    {
        assert forall|i: int| 0 <= i < c2.shares@.len() implies #[trigger] c2.slot_ok(i) by {
            if i != slot {
                assert(c1.slot_ok(i));
            }
        }
        assert forall|c: int| 0 <= c < c2.services@.len()
            implies (#[trigger] c2.services@[c]).avail_or_blocked.wf()
            && c2.services@[c].replies.valid by {
            let p = Place::Blocked(c as i16);
            assert(c1.place_valid(p));
            assert(c1.services@[c].avail_or_blocked.wf());
            if !c2.services@[c].avail_or_blocked.valid {
                assert(c1.list_at(p).len() == 0);
                if p == c1.shares@[slot].place {
                    assert(false);
                }
                if p == c2.shares@[slot].place {
                    assert(c2.slot_ok(slot));
                    assert(false);
                }
            }
        }
        assert forall|p: Place| #[trigger] c2.place_valid(p) implies list_ok(
            c2.list_at(p),
            c2.shares@,
            p,
        ) && list_full(c2.list_at(p), c2.shares@, p) by {
            assert(c1.place_valid(p));
            let q = c1.list_at(p);
            if p == c1.shares@[slot].place {
                assert(q[at].slot().unwrap() == slot);
                lemma_list_remove(q, c1.shares@, c2.shares@, p, at);
            } else if p == c2.shares@[slot].place {
                lemma_list_push(q, c1.shares@, c2.shares@, p, slot);
            } else {
                lemma_list_frame(q, c1.shares@, c2.shares@, p);
            }
        }
    }
}

impl Core {
    /// The state without service, descriptor or pending byte.
    pub fn new() -> (r: Self)
        ensures
            r.wf(),
            r.services@.len() == 0,
            r.names@.len() == 0,
            r.shares@.len() == 0,
            r.send_list@ == Seq::<SendLink>::empty(),
            r.tasks.ready() == Seq::<usize>::empty(),
    {
        let mut padding: Vec<u8> = Vec::new();
        padding.resize(ALIGNMENT, 0u8);
        assert(padding@ =~= zeros(ALIGNMENT as nat));
        Core {
            names: Vec::new(),
            services: Vec::new(),
            shares: Vec::new(),
            free: Vec::new(),
            send_list: SendList::default(),
            tasks: Tasks::new(),
            padding,
        }
    }

    /// Everything that holds of the state between two operations.
    pub open spec fn wf(&self) -> bool {
        &&& self.queues_wf()
        &&& self.names_wf()
        &&& self.tasks.wf()
        &&& self.padding@ == zeros(ALIGNMENT as nat)
    }

    /// Every service has one name of 1 to 127 bytes, and no two have the same.
    pub open spec fn names_wf(&self) -> bool {
        &&& self.names@.len() == self.services@.len()
        &&& forall|i: int|
            0 <= i < self.names@.len() ==> 0 < (#[trigger] self.names@[i])@.len() <= MAX_NAME_LEN
        &&& forall|i: int, j: int|
            0 <= i < j < self.names@.len() ==> (#[trigger] self.names@[i])@ != (
            #[trigger] self.names@[j])@
    }

    /// Whether a slot is there for one more descriptor: the table can grow,
    /// or the slot that was released last is still free.
    pub open spec fn has_room(&self) -> bool {
        self.shares@.len() < usize::MAX - 2 || (self.free@.len() > 0
            && self.shares@[self.free@.last() as int].place == Place::Free)
    }

    /// Whether a slot is there for one more descriptor.
    pub fn room(&self) -> (r: bool)
        requires
            self.wf(),
        ensures
            r == self.has_room(),
    {
        self.shares.len() < usize::MAX - 2 || (self.free.len() > 0 && self.shares[self.free[
            self.free.len() - 1]].place == Place::Free)
    }

    /// Puts a descriptor into the table and hands out the link to it.  Fails
    /// only when the table cannot grow.
    pub fn acquire(&mut self, share: Share) -> (r: Result<SendLink, Fault>)
        requires
            old(self).wf(),
            share.wf(),
            share.place == Place::Held,
        ensures
            final(self).wf(),
            final(self).registry_kept(old(self)),
            final(self).same_lists(old(self)),
            final(self).tasks == old(self).tasks,
            old(self).has_room() ==> r.is_ok(),
            match r {
                Ok(link) => {
                    &&& final(self).held(link)
                    &&& final(self).share(link) == share
                    &&& old(self).shares@.len() <= final(self).shares@.len() <= old(self).shares@.len() + 1
                    &&& link.slot().unwrap() < old(self).shares@.len()
                        ==> old(self).shares@[link.slot().unwrap() as int].place == Place::Free
                    &&& forall|i: int|
                        0 <= i < old(self).shares@.len() && i != link.slot().unwrap()
                            ==> final(self).shares@[i] == old(self).shares@[i]
                },
                Err(e) => e == Fault::OutOfDescriptors && final(self).shares == old(self).shares,
            },
    {
        let mut found: Option<usize> = None;
        while found.is_none() && self.free.len() > 0
            invariant
                self.shares == old(self).shares,
                self.same_lists(old(self)),
                self.tasks == old(self).tasks,
                forall|k: int| 0 <= k < self.free@.len()
                    ==> #[trigger] self.free@[k] < self.shares@.len(),
                match found {
                    Some(i) => i < self.shares@.len()
                        && self.shares@[i as int].place == Place::Free,
                    None => self.free == old(self).free || !(old(self).free@.len() > 0
                        && old(self).shares@[old(self).free@.last() as int].place == Place::Free),
                },
            decreases self.free@.len(), found.is_none() as int,
        {
            let i: usize = self.free.pop().unwrap();
            if self.shares[i].place == Place::Free {
                found = Some(i);
            }
        }
        match found {
            Some(i) => {
                self.shares[i] = share;
                proof {
                    assert(self.slot_ok(i as int));
                    assert forall|j: int| 0 <= j < self.shares@.len()
                        implies #[trigger] self.slot_ok(
                        j,
                    ) by {
                        if j != i {
                            assert(old(self).slot_ok(j));
                        }
                    }
                    Self::lemma_shares_changed(old(self), self);
                }
                Ok(SendLink::new(i))
            },
            None => {
                if self.shares.len() >= usize::MAX - 2 {
                    proof {
                        assert forall|j: int| 0 <= j < self.shares@.len()
                            implies #[trigger] self.slot_ok(
                            j,
                        ) by {
                            assert(old(self).slot_ok(j));
                        }
                        Self::lemma_shares_changed(old(self), self);
                    }
                    return Err(Fault::OutOfDescriptors);
                }
                let i: usize = self.shares.len();
                self.shares.push(share);
                proof {
                    assert forall|j: int| 0 <= j < self.shares@.len()
                        implies #[trigger] self.slot_ok(
                        j,
                    ) by {
                        if j != i {
                            assert(old(self).slot_ok(j));
                        }
                    }
                    Self::lemma_shares_changed(old(self), self);
                }
                Ok(SendLink::new(i))
            },
        }
    }

    /// Gives back the slot of a descriptor that is in no list.
    pub fn release(&mut self, link: SendLink)
        requires
            old(self).wf(),
            old(self).held(link),
        ensures
            final(self).wf(),
            final(self).registry_kept(old(self)),
            final(self).same_lists(old(self)),
            final(self).tasks == old(self).tasks,
            final(self).shares@.len() == old(self).shares@.len(),
            final(self).share(link).place == Place::Free,
            final(self).has_room(),
            forall|i: int|
                0 <= i < old(self).shares@.len() && i != link.slot().unwrap()
                    ==> final(self).shares@[i] == old(self).shares@[i],
    {
        let i: usize = link.index().unwrap();
        let mut empty = Share::default();
        empty.place = Place::Free;
        self.shares[i] = empty;
        self.free.push(i);
        proof {
            assert forall|j: int| 0 <= j < self.shares@.len()
                implies #[trigger] self.slot_ok(j) by {
                if j != i {
                    assert(old(self).slot_ok(j));
                }
            }
            assert forall|k: int| 0 <= k < self.free@.len() implies #[trigger] self.free@[k]
                < self.shares@.len() by {
                if k < old(self).free@.len() {
                    assert(self.free@[k] == old(self).free@[k]);
                }
            }
            Self::lemma_shares_changed(old(self), self);
        }
    }
}

impl Core {
    /// Where a descriptor for `target` is queued: in the blocked queue of its
    /// service while that is unavailable, else in the send queue.
    pub open spec fn route(&self, target: Option<Code>) -> Place {
        match target {
            Some(c) => if 0 <= c && !self.avail(c) {
                Place::Blocked(c)
            } else {
                Place::Sending
            },
            None => Place::Sending,
        }
    }

    /// Whether a descriptor may be queued: it has no reply yet, and it is
    /// addressed to the registry or to a registered service, or has no header
    /// and expects no reply.  One that expects a reply is addressed to a
    /// service and has an owner.
    pub open spec fn addressed(&self, sh: Share) -> bool {
        sh.reply.x < 0 && match sh.spec_target() {
            Some(c) => c < self.services@.len() && (sh.reply.x == -1 ==> 0 <= c && !sh.detached),
            None => sh.reply.x != -1,
        }
    }

    /// The services are as before, but for what their lists hold.
    pub open spec fn same_services(&self, before: &Core) -> bool {
        &&& self.names == before.names
        &&& self.padding == before.padding
        &&& self.services@.len() == before.services@.len()
        &&& forall|c: int|
            0 <= c < self.services@.len() ==> (#[trigger] self.services@[c]).spec_is_avail()
                == before.services@[c].spec_is_avail() && self.services@[c].info_recv
                == before.services@[c].info_recv
    }

    /// Queues a descriptor that its owner holds: behind everything that is
    /// in the list already.
    pub fn enqueue(&mut self, link: SendLink)
        requires
            old(self).wf(),
            old(self).held(link),
            old(self).addressed(old(self).share(link)),
            old(self).share(link).sent == 0,
        ensures
            final(self).wf(),
            final(self).registry_kept(old(self)),
            final(self).same_services(old(self)),
            final(self).tasks == old(self).tasks,
            final(self).shares@ == old(self).shares@.update(
                link.slot().unwrap() as int,
                (Share {
                    place: old(self).route(old(self).share(link).spec_target()),
                    ..old(self).share(link)
                }),
            ),
            forall|p: Place| #[trigger]
                old(self).place_valid(p) ==> final(self).list_at(p) == (if p == old(self).route(
                    old(self).share(link).spec_target(),
                ) {
                    old(self).list_at(p).push(link)
                } else {
                    old(self).list_at(p)
                }),
    {
        let i: usize = link.index().unwrap();
        let target = self.shares[i].target();
        let mut blocked: Option<Code> = None;
        if let Some(c) = target {
            if c >= 0 && !self.services[c as usize].is_avail() {
                blocked = Some(c);
            }
        }
        proof {
            assert(old(self).slot_ok(i as int));
        }
        match blocked {
            Some(c) => {
                self.shares[i].place = Place::Blocked(c);
                self.services[c as usize].avail_or_blocked.push_back(link);
            },
            None => {
                self.shares[i].place = Place::Sending;
                self.send_list.push_back(link);
            },
        }
        proof {
            assert(link == link_of(i as int));
            assert(self.shares@ =~= old(self).shares@.update(
                i as int,
                (Share {
                    place: old(self).route(old(self).share(link).spec_target()),
                    ..old(self).share(link)
                }),
            ));
            Self::lemma_moved(old(self), self, i as int, 0);
        }
    }

    /// Makes the task of a waker ready, if there is a waker.
    pub fn wake(&mut self, waker: Option<Waker>)
        requires
            old(self).wf(),
        ensures
            final(self).wf(),
            final(self).registry_kept(old(self)),
            final(self).same_lists(old(self)),
            final(self).shares == old(self).shares,
            final(self).free == old(self).free,
            final(self).tasks.state() == Tasks::woken(
                old(self).tasks.state(),
                old(self).tasks.next_id(),
                waker,
            ),
            final(self).tasks.rerun() == (old(self).tasks.rerun() || waker == Some(
                Waker { task: crate::task::TOP_TASK },
            )),
            final(self).tasks.draining() == old(self).tasks.draining(),
            final(self).tasks.next_id() == old(self).tasks.next_id(),
    {
        self.tasks.wake_option(waker);
        proof {
            assert forall|j: int| 0 <= j < self.shares@.len()
                implies #[trigger] self.slot_ok(j) by {
                assert(old(self).slot_ok(j));
            }
            Self::lemma_shares_changed(old(self), self);
        }
    }
}

/// Reason for service registration failure.
#[derive(Clone, Copy, Debug, PartialEq, Eq, Structural)]
pub enum RegistrationError {
    NameAlreadyRegistered,
    TooManyServices,
}

/// Whether two byte strings are the same.
pub fn bytes_eq(a: &[u8], b: &[u8]) -> (r: bool)
    ensures
        r == (a@ == b@),
{
    if a.len() != b.len() {
        return false;
    }
    let mut i: usize = 0;
    while i < a.len()
        invariant
            a@.len() == b@.len(),
            i <= a@.len(),
            forall|k: int| 0 <= k < i ==> a@[k] == b@[k],
        decreases a@.len() - i,
    {
        if a[i] != b[i] {
            return false;
        }
        i += 1;
    }
    assert(a@ =~= b@);
    true
}

/// The registry packet that asks for the service called `name`.
pub open spec fn spec_register_packet(name: Seq<u8>) -> Seq<u8> {
    crate::packet::spec_services_header(SERVICES_HEADER_SIZE + 1 + name.len(), 1) + seq![
        name.len() as u8,
    ] + name
}

impl Core {
    /// Whether a service is registered under `name`.
    pub open spec fn has_name(&self, name: Seq<u8>) -> bool {
        exists|i: int| 0 <= i < self.names@.len() && (#[trigger] self.names@[i])@ == name
    }

    /// Whether a service is registered under `name`.
    pub fn is_registered(&self, name: &[u8]) -> (r: bool)
        ensures
            r == self.has_name(name@),
    {
        let mut i: usize = 0;
        while i < self.names.len()
            invariant
                i <= self.names@.len(),
                forall|k: int| 0 <= k < i ==> (#[trigger] self.names@[k])@ != name@,
            decreases self.names@.len() - i,
        {
            if bytes_eq(self.names[i].as_slice(), name) {
                return true;
            }
            i += 1;
        }
        false
    }

    /// Registers a service.  Its code is the number of services registered
    /// before it, and it starts unavailable.  With the code comes the packet
    /// that asks the registry for the service, to be sent in the background.
    pub fn register_service(&mut self, name: &str) -> (r: Result<(Code, Vec<u8>), RegistrationError>)
        requires
            old(self).wf(),
            0 < name.spec_bytes().len() <= MAX_NAME_LEN,
        ensures
            final(self).wf(),
            final(self).shares == old(self).shares,
            final(self).send_list == old(self).send_list,
            final(self).tasks == old(self).tasks,
            final(self).padding == old(self).padding,
            match r {
                Ok((code, packet)) => {
                    &&& !old(self).has_name(name.spec_bytes())
                    &&& old(self).services@.len() < MAX_SERVICES
                    &&& code == old(self).services@.len()
                    &&& final(self).names@ == old(self).names@.push(final(self).names@[code as int])
                    &&& final(self).names@[code as int]@ == name.spec_bytes()
                    &&& final(self).services@ == old(self).services@.push(
                        final(self).services@[code as int],
                    )
                    &&& !final(self).avail(code)
                    &&& final(self).services@[code as int].avail_or_blocked@.len() == 0
                    &&& final(self).services@[code as int].replies@.len() == 0
                    &&& final(self).services@[code as int].info_recv == Recv::Empty
                    &&& packet@ == spec_register_packet(name.spec_bytes())
                },
                Err(RegistrationError::NameAlreadyRegistered) => old(self).has_name(
                    name.spec_bytes(),
                ) && final(self).names == old(self).names
                    && final(self).services == old(self).services,
                Err(RegistrationError::TooManyServices) => !old(self).has_name(name.spec_bytes())
                    && old(self).services@.len() >= MAX_SERVICES
                        && final(self).names == old(self).names
                        && final(self).services == old(self).services,
            },
    {
        let namedata = name.as_bytes();
        if self.is_registered(namedata) {
            return Err(RegistrationError::NameAlreadyRegistered);
        }
        if self.services.len() >= MAX_SERVICES {
            return Err(RegistrationError::TooManyServices);
        }
        let size: usize = SERVICES_HEADER_SIZE + 1 + namedata.len();
        let mut p: Vec<u8> = Vec::new();
        p.resize(SERVICES_HEADER_SIZE, 0u8);
        crate::packet::services_header_into(p.as_mut_slice(), size, 1);
        p.push(namedata.len() as u8);
        p.extend_from_slice(namedata);
        assert(p@ =~= spec_register_packet(name.spec_bytes()));

        let code: Code = self.services.len() as Code;
        let mut stored: Vec<u8> = Vec::new();
        stored.extend_from_slice(namedata);
        self.names.push(stored);
        self.services.push(ServiceState::new_unavail());
        proof {
            let c1 = old(self);
            let n = c1.services@.len() as int;
            assert forall|i: int| 0 <= i < self.shares@.len()
                implies #[trigger] self.slot_ok(i) by {
                assert(c1.slot_ok(i));
                assert(forall|c: Code| c1.avail(c) ==> self.avail(c));
                assert(forall|c: Code| 0 <= c < n ==> c1.avail(c) == self.avail(c));
            }
            assert forall|c: int| 0 <= c < self.services@.len()
                implies (#[trigger] self.services@[c]).avail_or_blocked.wf()
                && self.services@[c].replies.valid by {
                if c < n {
                    assert(self.services@[c] == c1.services@[c]);
                }
            }
            assert forall|p: Place| #[trigger] self.place_valid(p) implies list_ok(
                self.list_at(p),
                self.shares@,
                p,
            ) && list_full(self.list_at(p), self.shares@, p) by {
                if c1.place_valid(p) {
                    assert(self.list_at(p) == c1.list_at(p));
                } else {
                    assert(self.list_at(p).len() == 0);
                    assert forall|i: int| 0 <= i < self.shares@.len() implies (
                    #[trigger] self.shares@[i]).place != p by {
                        assert(c1.slot_ok(i));
                    }
                }
            }
            assert forall|i: int, j: int| 0 <= i < j < self.names@.len() implies (
            #[trigger] self.names@[i])@ != (#[trigger] self.names@[j])@ by {
                if j < n {
                    assert(self.names@[i] == c1.names@[i]);
                    assert(self.names@[j] == c1.names@[j]);
                } else {
                    assert(self.names@[i] == c1.names@[i]);
                    assert(self.names@[j]@ == name.spec_bytes());
                    assert(!c1.has_name(name.spec_bytes()));
                    assert(c1.names@[i]@ != name.spec_bytes());
                }
            }
            assert(self.names@ =~= c1.names@.push(self.names@[code as int]));
            assert(self.services@ =~= c1.services@.push(self.services@[code as int]));
        }
        Ok((code, p))
    }

    /// Whether `link` names a descriptor that is in use.
    pub open spec fn live(&self, link: SendLink) -> bool {
        &&& link.slot().is_some()
        &&& link.slot().unwrap() < self.shares@.len()
        &&& self.share(link).place != Place::Free
    }

    /// Whether `link` names a descriptor that is in use.
    pub fn is_live(&self, link: SendLink) -> (r: bool)
        ensures
            r == self.live(link),
    {
        match link.index() {
            Some(i) => i < self.shares.len() && self.shares[i].place != Place::Free,
            None => false,
        }
    }

    /// Whether the descriptor is back with its owner and was sent whole.
    pub open spec fn spec_finished(&self, link: SendLink) -> bool {
        self.share(link).place == Place::Held && self.share(link).spec_is_sent()
    }

    /// Whether the descriptor is back with its owner and was sent whole.
    pub fn finished(&self, link: SendLink) -> (r: bool)
        requires
            self.wf(),
            self.live(link),
        ensures
            r == self.spec_finished(link),
    {
        let i: usize = link.index().unwrap();
        assert(self.slot_ok(i as int));
        self.shares[i].place == Place::Held && self.shares[i].is_sent()
    }

    /// Leaves the waker with a descriptor, in place of the one it had.
    pub fn set_waker(&mut self, link: SendLink, waker: Waker)
        requires
            old(self).wf(),
            old(self).live(link),
        ensures
            final(self).wf(),
            final(self).registry_kept(old(self)),
            final(self).same_lists(old(self)),
            final(self).free == old(self).free,
            final(self).tasks == old(self).tasks,
            final(self).shares@ == old(self).shares@.update(
                link.slot().unwrap() as int,
                (Share { waker: Some(waker), ..old(self).share(link) }),
            ),
    {
        let i: usize = link.index().unwrap();
        self.shares[i].waker = Some(waker);
        proof {
            assert(self.shares@ =~= old(self).shares@.update(
                i as int,
                (Share { waker: Some(waker), ..old(self).share(link) }),
            ));
            assert forall|j: int| 0 <= j < self.shares@.len()
                implies #[trigger] self.slot_ok(j) by {
                assert(old(self).slot_ok(j));
            }
            Self::lemma_shares_changed(old(self), self);
        }
    }
}

impl Core {
    /// The lists hold what they held, and descriptors and availability are
    /// as they were: only what services have to pick up may differ.
    pub proof fn lemma_info_changed(c1: &Core, c2: &Core)
        requires
            c1.queues_wf(),
            c2.shares == c1.shares,
            c2.free == c1.free,
            c2.send_list == c1.send_list,
            c2.services@.len() == c1.services@.len(),
            forall|c: int|
                0 <= c < c1.services@.len() ==> (#[trigger] c2.services@[c]).avail_or_blocked
                    == c1.services@[c].avail_or_blocked && c2.services@[c].replies
                    == c1.services@[c].replies,
        ensures
            c2.queues_wf(),
    {
        assert forall|i: int| 0 <= i < c2.shares@.len() implies #[trigger] c2.slot_ok(i) by {
            assert(c1.slot_ok(i));
        }
        assert forall|p: Place| #[trigger] c2.place_valid(p) implies list_ok(
            c2.list_at(p),
            c2.shares@,
            p,
        ) && list_full(c2.list_at(p), c2.shares@, p) by {
            assert(c1.place_valid(p));
            assert(c1.list_at(p) == c2.list_at(p));
        }
    }

    /// The state after a reply at `offset` was handed to the call at `index`
    /// in the reply queue of service `code`.
    pub open spec fn reply_dispatched(
        &self,
        before: &Core,
        code: Code,
        index: usize,
        offset: usize,
    ) -> bool {
        let link = before.services@[code as int].replies@[index as int];
        let sh = before.share(link);
        &&& self.tasks.kept(&before.tasks)
        &&& self.same_services(before)
        &&& self.free == before.free
        &&& before.reply_fault(code, index).is_none()
        &&& before.live(link)
        &&& self.shares@ == before.shares@.update(
            link.slot().unwrap() as int,
            (Share {
                reply: crate::send::Reply { x: offset as isize },
                waker: None,
                place: Place::Held,
                ..sh
            }),
        )
        &&& forall|p: Place| #[trigger]
            before.place_valid(p) ==> self.list_at(p) == (if p == Place::Replying(code) {
                before.list_at(p).remove(index as int)
            } else {
                before.list_at(p)
            })
        &&& self.tasks.state() == Tasks::woken(
            before.tasks.state(),
            before.tasks.next_id(),
            sh.waker,
        )
    }

    /// What `dispatch_reply` answers: the fault, if any.
    pub open spec fn reply_fault(&self, code: Code, index: usize) -> Option<Fault> {
        if code < 0 || code >= self.services@.len() {
            Some(Fault::UnknownService)
        } else if index >= self.services@[code as int].replies@.len() {
            Some(Fault::UnexpectedReply)
        } else {
            None
        }
    }

    /// Hands a reply to the call that it answers: the one at `index` in the
    /// reply queue of service `code`, which leaves that queue.  The call's
    /// descriptor gets the reply's offset, and its task is woken.
    pub fn dispatch_reply(&mut self, code: Code, index: usize, offset: usize) -> (r: Result<
        (),
        Fault,
    >)
        requires
            old(self).wf(),
            offset <= isize::MAX,
        ensures
            final(self).wf(),
            final(self).registry_kept(old(self)),
            final(self).same_services(old(self)),
            final(self).send_list == old(self).send_list,
            match r {
                Err(e) => old(self).reply_fault(code, index) == Some(e)
                    && *final(self) == *old(self),
                Ok(()) => final(self).reply_dispatched(old(self), code, index, offset),
            },
    {
        if code < 0 || code as usize >= self.services.len() {
            return Err(Fault::UnknownService);
        }
        if index >= self.services[code as usize].replies.len() {
            return Err(Fault::UnexpectedReply);
        }
        proof {
            assert(self.place_valid(Place::Replying(code)));
            assert(self.list_at(Place::Replying(code))[index as int]
                == self.services@[code as int].replies@[index as int]);
        }
        let link = self.services[code as usize].replies.remove(index);
        let i: usize = link.index().unwrap();
        assert(link == link_of(i as int));
        assert(old(self).slot_ok(i as int));
        self.shares[i].reply.set_offset(offset);
        self.shares[i].place = Place::Held;
        let waker = self.shares[i].waker;
        self.shares[i].waker = None;
        proof {
            assert(self.shares@ =~= old(self).shares@.update(
                i as int,
                (Share {
                    reply: crate::send::Reply { x: offset as isize },
                    waker: None,
                    place: Place::Held,
                    ..old(self).share(link)
                }),
            ));
            Self::lemma_moved(old(self), self, i as int, index as int);
        }
        self.wake(waker);
        Ok(())
    }

    /// What a service has to pick up after an info packet at `offset` came:
    /// the offset, unless an earlier one is still there.
    pub open spec fn spec_deposit(slot: Recv, offset: usize) -> Recv {
        match slot {
            Recv::Offset(earlier) => Recv::Offset(earlier),
            _ => Recv::Offset(offset),
        }
    }

    /// The state after the offset of an info packet was left with service
    /// `code`.
    pub open spec fn info_deposited(&self, before: &Core, code: Code, offset: usize) -> bool {
        let service = before.services@[code as int];
        &&& 0 <= code < before.services@.len()
        &&& self.shares == before.shares
        &&& self.free == before.free
        &&& self.send_list == before.send_list
        &&& self.names == before.names
        &&& self.padding == before.padding
        &&& self.services@ == before.services@.update(
            code as int,
            (ServiceState {
                info_recv: Self::spec_deposit(service.info_recv, offset),
                avail_or_blocked: service.avail_or_blocked,
                replies: service.replies,
            }),
        )
        &&& self.tasks.kept(&before.tasks)
        &&& self.tasks.state() == Tasks::woken(
            before.tasks.state(),
            before.tasks.next_id(),
            crate::streams::waiting(service.info_recv),
        )
    }

    /// Leaves the offset of an info packet with its service and wakes the
    /// task that waits for it, if one does.
    pub fn dispatch_info(&mut self, code: Code, offset: usize) -> (r: Result<(), Fault>)
        requires
            old(self).wf(),
        ensures
            final(self).wf(),
            final(self).registry_kept(old(self)),
            final(self).shares == old(self).shares,
            final(self).send_list == old(self).send_list,
            final(self).names == old(self).names,
            final(self).padding == old(self).padding,
            match r {
                Err(e) => e == Fault::UnknownService && (code < 0
                    || code >= old(self).services@.len())
                    && *final(self) == *old(self),
                Ok(()) => final(self).info_deposited(old(self), code, offset),
            },
    {
        if code < 0 || code as usize >= self.services.len() {
            return Err(Fault::UnknownService);
        }
        let c: usize = code as usize;
        let mut waker: Option<Waker> = None;
        match self.services[c].info_recv.take() {
            Recv::Empty => {
                self.services[c].info_recv = Recv::Offset(offset);
            },
            Recv::Wake(w) => {
                self.services[c].info_recv = Recv::Offset(offset);
                waker = Some(w);
            },
            Recv::Offset(earlier) => {
                self.services[c].info_recv = Recv::Offset(earlier);
            },
        }
        proof {
            let before = old(self).services@[code as int];
            assert(self.services@ =~= old(self).services@.update(
                code as int,
                (ServiceState {
                    info_recv: Self::spec_deposit(before.info_recv, offset),
                    avail_or_blocked: before.avail_or_blocked,
                    replies: before.replies,
                }),
            ));
            Self::lemma_info_changed(old(self), self);
        }
        self.wake(waker);
        Ok(())
    }
}

impl Core {
    /// The state after the descriptor `sh` was put into the slot that `link`
    /// names, which was not in use, and queued.
    pub open spec fn submitted(&self, before: &Core, link: SendLink, sh: Share) -> bool {
        &&& link.slot().is_some()
        &&& link.slot().unwrap() < self.shares@.len()
        &&& !before.live(link)
        &&& before.shares@.len() <= self.shares@.len() <= before.shares@.len() + 1
        &&& self.share(link) == (Share { place: before.route(sh.spec_target()), ..sh })
        &&& forall|i: int|
            0 <= i < before.shares@.len() && i != link.slot().unwrap() ==> self.shares@[i]
                == before.shares@[i]
        &&& self.same_services(before)
        &&& self.tasks == before.tasks
        &&& forall|p: Place| #[trigger]
            before.place_valid(p) ==> self.list_at(p) == (if p == before.route(sh.spec_target()) {
                before.list_at(p).push(link)
            } else {
                before.list_at(p)
            })
    }

    /// Puts a descriptor into the table and queues it.  Fails only when the
    /// table cannot grow, and then changes nothing that can be seen.
    pub fn submit(&mut self, share: Share) -> (r: Result<SendLink, Fault>)
        requires
            old(self).wf(),
            share.wf(),
            share.place == Place::Held,
            share.sent == 0,
            old(self).addressed(share),
        ensures
            final(self).wf(),
            final(self).registry_kept(old(self)),
            old(self).has_room() ==> r.is_ok(),
            match r {
                Ok(link) => final(self).submitted(old(self), link, share),
                Err(e) => e == Fault::OutOfDescriptors && final(self).shares == old(self).shares
                    && final(self).same_lists(old(self)) && final(self).tasks == old(self).tasks,
            },
    {
        let link = match self.acquire(share) {
            Ok(link) => link,
            Err(e) => {
                return Err(e);
            },
        };
        let ghost mid = *self;
        self.enqueue(link);
        proof {
            assert(mid.share(link) == share);
            assert forall|p: Place| #[trigger] old(self).place_valid(p) implies self.list_at(p) == (
            if p == old(self).route(share.spec_target()) {
                old(self).list_at(p).push(link)
            } else {
                old(self).list_at(p)
            }) by {
                assert(mid.place_valid(p));
                assert(mid.list_at(p) == old(self).list_at(p));
            }
        }
        Ok(link)
    }
}

impl Core {
    /// Only the ready queue has changed, and it is in order.
    pub proof fn lemma_tasks_changed(&self, before: &Core)
        requires
            before.wf(),
            self.tasks.wf(),
            self.same_lists(before),
            self.shares == before.shares,
            self.free == before.free,
        ensures
            self.wf(),
    {
        assert forall|j: int| 0 <= j < self.shares@.len() implies #[trigger] self.slot_ok(j) by {
            assert(before.slot_ok(j));
        }
        Self::lemma_shares_changed(before, self);
    }
}

/// What a descriptor is when an operation hands it over: a packet of two
/// spans, not sent yet, that expects a reply or none.
pub open spec fn is_packet(
    sh: Share,
    header: Seq<u8>,
    content: Seq<u8>,
    reply: bool,
    waker: Option<Waker>,
) -> bool {
    &&& sh.spec_header() == header
    &&& sh.spec_content() == content
    &&& sh.sent == 0
    &&& sh.reply.x == (if reply {
        -1isize
    } else {
        -2isize
    })
    &&& sh.waker == waker
    &&& sh.place == Place::Held
    &&& !sh.detached
}

impl Core {
    /// Whether a packet with this header may be queued: it is addressed to
    /// the registry or to a registered service, and to a service if it
    /// expects a reply; or it has no header and expects no reply.
    pub open spec fn accepts(&self, header: Seq<u8>, reply: bool) -> bool {
        if header.len() >= crate::packet::HEADER_SIZE {
            crate::packet::spec_code(header) < self.services@.len() && (reply ==> 0
                <= crate::packet::spec_code(header))
        } else {
            !reply
        }
    }

    /// The state after an operation's packet was put into the slot that
    /// `link` names and queued, with the waker of the operation's task if it
    /// is to be woken.
    pub open spec fn started(
        &self,
        before: &Core,
        link: SendLink,
        header: Seq<u8>,
        content: Seq<u8>,
        reply: bool,
        waker: Option<Waker>,
    ) -> bool {
        exists|sh: Share|
            is_packet(sh, header, content, reply, waker) && #[trigger] self.submitted(
                before,
                link,
                sh,
            )
    }

    /// Queues an operation's packet.  Fails only when the table of
    /// descriptors cannot grow, and then changes nothing that can be seen.
    pub fn start(
        &mut self,
        header: Vec<u8>,
        content: Vec<u8>,
        reply: bool,
        waker: Option<Waker>,
    ) -> (r: Result<SendLink, Fault>)
        requires
            old(self).wf(),
            header@.len() + content@.len() + 7 <= u32::MAX,
            old(self).accepts(header@, reply),
        ensures
            final(self).wf(),
            final(self).registry_kept(old(self)),
            old(self).has_room() ==> r.is_ok(),
            match r {
                Ok(link) => final(self).started(old(self), link, header@, content@, reply, waker),
                Err(e) => e == Fault::OutOfDescriptors && final(self).shares == old(self).shares
                    && final(self).same_lists(old(self)) && final(self).tasks == old(self).tasks,
            },
    {
        let mut share = Share::packet(header, content);
        if reply {
            share.reply = crate::send::Reply::expected();
        }
        share.waker = waker;
        let ghost sh = share;
        let r = self.submit(share);
        proof {
            if let Ok(link) = r {
                assert(is_packet(sh, header@, content@, reply, waker));
                assert(self.submitted(old(self), link, sh));
            }
        }
        r
    }
}

impl Core {
    /// The state after a task began to wait for the info packets of service
    /// `code`.
    pub open spec fn listening(&self, before: &Core, code: Code, waker: Waker) -> bool {
        let service = before.services@[code as int];
        &&& self.shares == before.shares
        &&& self.free == before.free
        &&& self.send_list == before.send_list
        &&& self.names == before.names
        &&& self.padding == before.padding
        &&& self.tasks == before.tasks
        &&& self.services@ == before.services@.update(
            code as int,
            (ServiceState {
                info_recv: Recv::Wake(waker),
                avail_or_blocked: service.avail_or_blocked,
                replies: service.replies,
            }),
        )
    }

    /// Leaves a waker with service `code`, for the next info packet, and
    /// hands out what the service had to pick up.
    pub fn listen(&mut self, code: Code, waker: Waker) -> (r: Recv)
        requires
            old(self).wf(),
            0 <= code < old(self).services@.len(),
        ensures
            final(self).wf(),
            final(self).registry_kept(old(self)),
            r == old(self).services@[code as int].info_recv,
            final(self).listening(old(self), code, waker),
    {
        let c: usize = code as usize;
        let r = self.services[c].info_recv.take();
        self.services[c].info_recv = Recv::Wake(waker);
        proof {
            let service = old(self).services@[code as int];
            assert(self.services@ =~= old(self).services@.update(
                code as int,
                (ServiceState {
                    info_recv: Recv::Wake(waker),
                    avail_or_blocked: service.avail_or_blocked,
                    replies: service.replies,
                }),
            ));
            Self::lemma_info_changed(old(self), self);
        }
        r
    }

    /// The offset of the reply that a call's descriptor has got, if it has
    /// one.
    pub fn reply_offset(&self, link: SendLink) -> (r: Option<usize>)
        requires
            self.wf(),
            self.live(link),
        ensures
            r == self.share(link).reply.spec_offset(),
            r.is_some() ==> self.held(link),
    {
        let i: usize = link.index().unwrap();
        assert(self.slot_ok(i as int));
        self.shares[i].reply.offset()
    }
}

impl Core {
    /// The state after an operation gave up a descriptor.  One that is with
    /// its owner leaves its slot at once.  One that is queued and expects no
    /// reply leaves it once it is sent.  Any other is left as it is.
    pub open spec fn abandoned(&self, before: &Core, link: SendLink) -> bool {
        let sh = before.share(link);
        &&& self.same_lists(before)
        &&& self.tasks == before.tasks
        &&& self.shares@.len() == before.shares@.len()
        &&& !before.live(link) ==> self.shares == before.shares
        &&& before.live(link) ==> {
            &&& forall|i: int|
                0 <= i < before.shares@.len() && i != link.slot().unwrap() ==> self.shares@[i]
                    == before.shares@[i]
            &&& if sh.place == Place::Held {
                self.share(link).place == Place::Free
            } else if sh.reply.x == -1 {
                self.share(link) == sh
            } else {
                self.share(link) == (Share { detached: true, waker: None, ..sh })
            }
        }
    }

    /// Gives up a descriptor.
    pub fn abandon(&mut self, link: SendLink)
        requires
            old(self).wf(),
        ensures
            final(self).wf(),
            final(self).registry_kept(old(self)),
            final(self).abandoned(old(self), link),
    {
        if !self.is_live(link) {
            return ;
        }
        let i: usize = link.index().unwrap();
        assert(self.slot_ok(i as int));
        if self.shares[i].place == Place::Held {
            self.release(link);
        } else if !self.shares[i].reply.is_expected() {
            self.shares[i].detached = true;
            self.shares[i].waker = None;
            proof {
                assert forall|j: int| 0 <= j < self.shares@.len() implies #[trigger] self.slot_ok(
                    j,
                ) by {
                    assert(old(self).slot_ok(j));
                }
                Self::lemma_shares_changed(old(self), self);
            }
        }
    }
}

} // verus!
