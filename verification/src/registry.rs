//! What a registry packet does: services become available or unavailable,
//! and descriptors move between the send queue and the blocked queues.

use crate::error::Fault;
use crate::packet::{Code, SERVICE_STATE_AVAIL};
use crate::runtime::{link_of, list_full, list_ok, lemma_list_frame, Core};
use crate::send::{Place, SendLink, SendList, Share};
use vstd::prelude::*;

verus! {

/// Whether the descriptor that a link names is addressed to service `c`.
pub open spec fn targets(shares: Seq<Share>, c: Code) -> spec_fn(SendLink) -> bool {
    |l: SendLink| shares[l.slot().unwrap() as int].spec_target() == Some(c)
}

/// Whether the descriptor that a link names is not addressed to service `c`.
pub open spec fn targets_other(shares: Seq<Share>, c: Code) -> spec_fn(SendLink) -> bool {
    |l: SendLink| shares[l.slot().unwrap() as int].spec_target() != Some(c)
}

/// Whether bit 0 of a flags byte says that the service is available.
pub open spec fn flag_avail(flags: u8) -> bool {
    flags & SERVICE_STATE_AVAIL != 0
}

/// What is left of a list without duplicates has none, and holds exactly
/// the links that meet the condition.
pub proof fn lemma_filter_no_dup(q: Seq<SendLink>, pred: spec_fn(SendLink) -> bool)
    requires
        q.no_duplicates(),
    ensures
        q.filter(pred).no_duplicates(),
        forall|l: SendLink| #[trigger] q.filter(pred).contains(l) ==> q.contains(l) && pred(l),
        forall|l: SendLink| #[trigger] q.contains(l) && pred(l) ==> q.filter(pred).contains(l),
    decreases q.len(),
{
    let fq = q.filter(pred);
    reveal(Seq::filter);
    if q.len() > 0 {
        let rest = q.drop_last();
        let last = q.last();
        lemma_filter_no_dup(rest, pred);
        let f = rest.filter(pred);
        assert(fq == (if pred(last) {
            f.push(last)
        } else {
            f
        }));
        assert(!rest.contains(last)) by {
            if rest.contains(last) {
                let k = choose|k: int| 0 <= k < rest.len() && rest[k] == last;
                assert(q[k] == q[q.len() - 1]);
            }
        }
        assert forall|l: SendLink| #[trigger] fq.contains(l) implies q.contains(l) && pred(l) by {
            let m = choose|m: int| 0 <= m < fq.len() && fq[m] == l;
            if m < f.len() {
                assert(f[m] == l);
                assert(f.contains(l));
                assert(rest.contains(l));
                let k = choose|k: int| 0 <= k < rest.len() && rest[k] == l;
                assert(q[k] == l);
            } else {
                assert(q[q.len() - 1] == l);
            }
        }
        assert forall|l: SendLink| #[trigger] q.contains(l) && pred(l) implies fq.contains(l) by {
            let k = choose|k: int| 0 <= k < q.len() && q[k] == l;
            if k < q.len() - 1 {
                assert(rest[k] == l);
                assert(rest.contains(l));
                assert(f.contains(l));
                let m = choose|m: int| 0 <= m < f.len() && f[m] == l;
                assert(fq[m] == l);
            } else {
                assert(fq[f.len() as int] == l);
            }
        }
        assert forall|a: int, b: int| 0 <= a < fq.len() && 0 <= b < fq.len() && a != b implies fq[a]
            != fq[b] by {
            if a < f.len() && b < f.len() {
                assert(fq[a] == f[a]);
                assert(fq[b] == f[b]);
            } else {
                let m = if a < f.len() {
                    a
                } else {
                    b
                };
                assert(fq[m] == f[m]);
                assert(f.contains(f[m]));
                assert(rest.contains(f[m]));
            }
        }
    }
}

impl Core {
    /// The state after service `c`, which was unavailable, has become
    /// available: what its blocked queue held is at the end of the send
    /// queue, in the same order.
    pub open spec fn flushed(&self, before: &Core, c: Code) -> bool {
        &&& self.names == before.names
        &&& self.padding == before.padding
        &&& self.free == before.free
        &&& self.tasks == before.tasks
        &&& self.send_list.valid
        &&& self.send_list@ == before.send_list@ + before.services@[c as int].avail_or_blocked@
        &&& self.services@.len() == before.services@.len()
        &&& forall|k: int|
            0 <= k < before.services@.len() && k != c ==> #[trigger] self.services@[k]
                == before.services@[k]
        &&& self.avail(c)
        &&& self.services@[c as int].avail_or_blocked@.len() == 0
        &&& self.services@[c as int].replies == before.services@[c as int].replies
        &&& self.services@[c as int].info_recv == before.services@[c as int].info_recv
        &&& self.shares@.len() == before.shares@.len()
        &&& forall|i: int|
            0 <= i < before.shares@.len()
                ==> #[trigger] self.shares@[i] == (if before.shares@[i].place == Place::Blocked(c) {
                Share { place: Place::Sending, ..before.shares@[i] }
            } else {
                before.shares@[i]
            })
    }

    /// The state after service `c`, which was available, has become
    /// unavailable: every descriptor for it has left the send queue for its
    /// blocked queue, and both queues keep the order that the send queue had.
    pub open spec fn swept(&self, before: &Core, c: Code) -> bool {
        &&& self.names == before.names
        &&& self.padding == before.padding
        &&& self.free == before.free
        &&& self.tasks == before.tasks
        &&& self.send_list.valid
        &&& self.send_list@ == before.send_list@.filter(targets_other(before.shares@, c))
        &&& self.services@.len() == before.services@.len()
        &&& forall|k: int|
            0 <= k < before.services@.len() && k != c ==> #[trigger] self.services@[k]
                == before.services@[k]
        &&& !self.avail(c)
        &&& self.services@[c as int].avail_or_blocked@ == before.send_list@.filter(
            targets(before.shares@, c),
        )
        &&& self.services@[c as int].replies == before.services@[c as int].replies
        &&& self.services@[c as int].info_recv == before.services@[c as int].info_recv
        &&& self.shares@.len() == before.shares@.len()
        &&& forall|i: int|
            0 <= i < before.shares@.len()
                ==> #[trigger] self.shares@[i] == (if before.shares@[i].place
                == Place::Sending && before.shares@[i].spec_target() == Some(c) {
                Share { place: Place::Blocked(c), ..before.shares@[i] }
            } else {
                before.shares@[i]
            })
    }

    pub proof fn lemma_flushed(c1: &Core, c2: &Core, c: Code)
        requires
            c1.queues_wf(),
            0 <= c < c1.services@.len(),
            !c1.avail(c),
            c2.flushed(c1, c),
        ensures
            c2.queues_wf(),
    {
        let q0 = c1.send_list@;
        let b0 = c1.services@[c as int].avail_or_blocked@;
        assert(c1.place_valid(Place::Sending));
        assert(c1.place_valid(Place::Blocked(c)));
        assert(c1.list_at(Place::Blocked(c)) == b0);
        assert forall|i: int| 0 <= i < c2.shares@.len() implies #[trigger] c2.slot_ok(i) by {
            assert(c1.slot_ok(i));
            assert(forall|k: Code| c1.avail(k) ==> c2.avail(k));
            assert(forall|k: Code| k != c ==> c1.avail(k) == c2.avail(k));
        }
        assert forall|k: int| 0 <= k < c2.services@.len()
            implies (#[trigger] c2.services@[k]).avail_or_blocked.wf()
            && c2.services@[k].replies.valid by {
            assert(c1.services@[k].replies.valid);
        }
        assert forall|p: Place| #[trigger] c2.place_valid(p) implies list_ok(
            c2.list_at(p),
            c2.shares@,
            p,
        ) && list_full(c2.list_at(p), c2.shares@, p) by {
            assert(c1.place_valid(p));
            if p == Place::Sending {
                let q2 = q0 + b0;
                assert forall|k: int| 0 <= k < q2.len() implies {
                    let l = #[trigger] q2[k];
                    &&& l.slot().is_some()
                    &&& l.slot().unwrap() < c2.shares@.len()
                    &&& c2.shares@[l.slot().unwrap() as int].place == p
                } by {
                    if k < q0.len() {
                        assert(q2[k] == q0[k]);
                    } else {
                        assert(q2[k] == b0[k - q0.len()]);
                    }
                }
                assert forall|a: int, b: int| 0 <= a < q2.len() && 0 <= b < q2.len()
                    && a != b implies q2[a]
                    != q2[b] by {
                    let la = if a < q0.len() {
                        q0[a]
                    } else {
                        b0[a - q0.len()]
                    };
                    let lb = if b < q0.len() {
                        q0[b]
                    } else {
                        b0[b - q0.len()]
                    };
                    assert(q2[a] == la);
                    assert(q2[b] == lb);
                }
                assert forall|i: int| 0 <= i < c2.shares@.len()
                    && (#[trigger] c2.shares@[i]).place == p implies q2.contains(
                    link_of(i),
                ) by {
                    if c1.shares@[i].place == Place::Blocked(c) {
                        let k = choose|k: int| 0 <= k < b0.len() && b0[k] == link_of(i);
                        assert(q2[q0.len() + k] == link_of(i));
                    } else {
                        assert(c1.shares@[i].place == p);
                        let k = choose|k: int| 0 <= k < q0.len() && q0[k] == link_of(i);
                        assert(q2[k] == link_of(i));
                    }
                }
            } else if p == Place::Blocked(c) {
                assert(c2.list_at(p).len() == 0);
            } else {
                assert(c2.list_at(p) == c1.list_at(p));
                lemma_list_frame(c1.list_at(p), c1.shares@, c2.shares@, p);
            }
        }
    }

    pub proof fn lemma_swept(c1: &Core, c2: &Core, c: Code)
        requires
            c1.queues_wf(),
            c1.avail(c),
            c2.swept(c1, c),
        ensures
            c2.queues_wf(),
    {
        let q0 = c1.send_list@;
        let keep = q0.filter(targets_other(c1.shares@, c));
        let moved = q0.filter(targets(c1.shares@, c));
        assert(c1.place_valid(Place::Sending));
        assert(c1.place_valid(Place::Blocked(c)));
        lemma_filter_no_dup(q0, targets_other(c1.shares@, c));
        lemma_filter_no_dup(q0, targets(c1.shares@, c));
        assert forall|i: int| 0 <= i < c2.shares@.len() implies #[trigger] c2.slot_ok(i) by {
            assert(c1.slot_ok(i));
            assert(forall|k: Code| c2.avail(k) ==> c1.avail(k));
            assert(forall|k: Code| k != c ==> c1.avail(k) == c2.avail(k));
        }
        assert forall|k: int| 0 <= k < c2.services@.len()
            implies (#[trigger] c2.services@[k]).avail_or_blocked.wf()
            && c2.services@[k].replies.valid by {
            assert(c1.services@[k].replies.valid);
        }
        assert forall|p: Place| #[trigger] c2.place_valid(p) implies list_ok(
            c2.list_at(p),
            c2.shares@,
            p,
        ) && list_full(c2.list_at(p), c2.shares@, p) by {
            assert(c1.place_valid(p));
            if p == Place::Sending {
                assert forall|k: int| 0 <= k < keep.len() implies {
                    let l = #[trigger] keep[k];
                    &&& l.slot().is_some()
                    &&& l.slot().unwrap() < c2.shares@.len()
                    &&& c2.shares@[l.slot().unwrap() as int].place == p
                } by {
                    assert(keep.contains(keep[k]));
                    let m = choose|m: int| 0 <= m < q0.len() && q0[m] == keep[k];
                }
                assert forall|i: int| 0 <= i < c2.shares@.len()
                    && (#[trigger] c2.shares@[i]).place == p implies keep.contains(
                    link_of(i),
                ) by {
                    assert(c1.shares@[i].place == p);
                    assert(q0.contains(link_of(i)));
                }
            } else if p == Place::Blocked(c) {
                assert forall|k: int| 0 <= k < moved.len() implies {
                    let l = #[trigger] moved[k];
                    &&& l.slot().is_some()
                    &&& l.slot().unwrap() < c2.shares@.len()
                    &&& c2.shares@[l.slot().unwrap() as int].place == p
                } by {
                    assert(moved.contains(moved[k]));
                    let m = choose|m: int| 0 <= m < q0.len() && q0[m] == moved[k];
                }
                assert forall|i: int| 0 <= i < c2.shares@.len()
                    && (#[trigger] c2.shares@[i]).place == p implies moved.contains(
                    link_of(i),
                ) by {
                    assert(c1.slot_ok(i));
                    assert(c1.shares@[i].place == Place::Sending);
                    assert(q0.contains(link_of(i)));
                }
            } else {
                assert(c2.list_at(p) == c1.list_at(p));
                lemma_list_frame(c1.list_at(p), c1.shares@, c2.shares@, p);
            }
        }
    }
}

impl Core {
    /// Marks service `c` available and moves what its blocked queue holds to
    /// the end of the send queue, in order.
    pub fn make_available(&mut self, c: Code)
        requires
            old(self).wf(),
            0 <= c < old(self).services@.len(),
            !old(self).avail(c),
        ensures
            final(self).wf(),
            final(self).registry_kept(old(self)),
            final(self).flushed(old(self), c),
    {
        let ci: usize = c as usize;
        let ghost q0 = self.send_list@;
        let ghost s0 = self.shares@;
        proof {
            assert(self.place_valid(Place::Blocked(c)));
            assert(self.list_at(Place::Blocked(c)) == self.services@[c as int].avail_or_blocked@);
        }
        let mut blocked: SendList = self.services[ci].set_avail_unchecked();
        let ghost b0 = blocked@;
        let ghost mut k: int = 0;
        proof {
            assert(b0.skip(0) =~= b0);
            assert(q0 + b0.take(0) =~= q0);
        }
        loop
            invariant
                self.names == old(self).names,
                self.padding == old(self).padding,
                self.free == old(self).free,
                self.tasks == old(self).tasks,
                q0 == old(self).send_list@,
                s0 == old(self).shares@,
                b0 == old(self).services@[c as int].avail_or_blocked@,
                0 <= c < old(self).services@.len(),
                ci == c,
                list_ok(b0, s0, Place::Blocked(c)),
                0 <= k <= b0.len(),
                blocked@ == b0.skip(k),
                self.send_list.valid,
                self.send_list@ == q0 + b0.take(k),
                self.services@.len() == old(self).services@.len(),
                forall|j: int|
                    0 <= j < old(self).services@.len() && j != c ==> #[trigger] self.services@[j]
                        == old(self).services@[j],
                self.avail(c),
                self.services@[c as int].avail_or_blocked@.len() == 0,
                self.services@[c as int].replies == old(self).services@[c as int].replies,
                self.services@[c as int].info_recv == old(self).services@[c as int].info_recv,
                self.shares@.len() == s0.len(),
                forall|i: int|
                    0 <= i < s0.len() ==> #[trigger] self.shares@[i] == (if b0.take(k).contains(
                        link_of(i),
                    ) {
                        Share { place: Place::Sending, ..s0[i] }
                    } else {
                        s0[i]
                    }),
                s0.len() < usize::MAX - 1,
            ensures
                k == b0.len(),
            decreases b0.len() - k,
        {
            let x = match blocked.pop_front() {
                Some(x) => x,
                None => {
                    assert(b0.skip(k).len() == 0);
                    break ;
                },
            };
            proof {
                assert(x == b0[k]);
            }
            let i: usize = x.index().unwrap();
            self.shares[i].place = Place::Sending;
            self.send_list.push_back(x);
            proof {
                assert(x == link_of(i as int));
                assert(b0.skip(k).skip(1) =~= b0.skip(k + 1));
                assert(b0.take(k + 1) =~= b0.take(k).push(x));
                assert(q0 + b0.take(k + 1) =~= (q0 + b0.take(k)).push(x));
                assert(!b0.take(k).contains(x)) by {
                    if b0.take(k).contains(x) {
                        let m = choose|m: int| 0 <= m < k && b0.take(k)[m] == x;
                        assert(b0[m] == b0[k]);
                    }
                }
                assert forall|j: int| 0 <= j < s0.len() implies #[trigger] self.shares@[j] == (
                if b0.take(k + 1).contains(link_of(j)) {
                    Share { place: Place::Sending, ..s0[j] }
                } else {
                    s0[j]
                }) by {
                    if j == i {
                        assert(b0.take(k + 1)[k] == link_of(j));
                    } else {
                        if b0.take(k).contains(link_of(j)) {
                            let m = choose|m: int| 0 <= m < k && b0.take(k)[m] == link_of(j);
                            assert(b0.take(k + 1)[m] == link_of(j));
                        }
                        let t1 = b0.take(k + 1);
                        if t1.contains(link_of(j)) {
                            let m = choose|m: int| 0 <= m < t1.len() && t1[m] == link_of(j);
                            assert(m != k);
                            assert(b0.take(k)[m] == link_of(j));
                        }
                    }
                }
                k = k + 1;
            }
        }
        proof {
            assert(b0.take(k) =~= b0);
            assert(old(self).place_valid(Place::Blocked(c)));
            assert forall|i: int| 0 <= i < s0.len()
                implies #[trigger] self.shares@[i] == (if s0[i].place == Place::Blocked(c) {
                Share { place: Place::Sending, ..s0[i] }
            } else {
                s0[i]
            }) by {
                if b0.contains(link_of(i)) {
                    let m = choose|m: int| 0 <= m < b0.len() && b0[m] == link_of(i);
                    assert(b0[m].slot().unwrap() == i);
                }
            }
            Self::lemma_flushed(old(self), self, c);
        }
    }

    /// Marks service `c` unavailable and moves every descriptor for it from
    /// the send queue to its blocked queue.  Both queues keep the order that
    /// the send queue had.
    pub fn make_unavailable(&mut self, c: Code)
        requires
            old(self).wf(),
            old(self).avail(c),
        ensures
            final(self).wf(),
            final(self).registry_kept(old(self)),
            final(self).swept(old(self), c),
    {
        let ci: usize = c as usize;
        let ghost q0 = self.send_list@;
        let ghost s0 = self.shares@;
        proof {
            assert(self.place_valid(Place::Sending));
            assert(self.place_valid(Place::Blocked(c)));
        }
        self.services[ci].set_unavail_unchecked();
        let mut all: SendList = SendList::default();
        std::mem::swap(&mut self.send_list, &mut all);
        let ghost mut k: int = 0;
        proof {
            reveal(Seq::filter);
            assert(q0.skip(0) =~= q0);
            assert(q0.take(0).filter(targets(s0, c)) =~= Seq::<SendLink>::empty());
            assert(q0.take(0).filter(targets_other(s0, c)) =~= Seq::<SendLink>::empty());
        }
        loop
            invariant
                self.names == old(self).names,
                self.padding == old(self).padding,
                self.free == old(self).free,
                self.tasks == old(self).tasks,
                q0 == old(self).send_list@,
                s0 == old(self).shares@,
                0 <= c < old(self).services@.len(),
                ci == c,
                list_ok(q0, s0, Place::Sending),
                0 <= k <= q0.len(),
                all@ == q0.skip(k),
                self.send_list.valid,
                self.send_list@ == q0.take(k).filter(targets_other(s0, c)),
                self.services@.len() == old(self).services@.len(),
                forall|j: int|
                    0 <= j < old(self).services@.len() && j != c ==> #[trigger] self.services@[j]
                        == old(self).services@[j],
                !self.avail(c),
                self.services@[c as int].avail_or_blocked@ == q0.take(k).filter(targets(s0, c)),
                self.services@[c as int].replies == old(self).services@[c as int].replies,
                self.services@[c as int].info_recv == old(self).services@[c as int].info_recv,
                self.shares@.len() == s0.len(),
                forall|i: int|
                    0 <= i < s0.len() ==> #[trigger] self.shares@[i] == (if q0.take(k).contains(
                        link_of(i),
                    ) && s0[i].spec_target() == Some(c) {
                        Share { place: Place::Blocked(c), ..s0[i] }
                    } else {
                        s0[i]
                    }),
                s0.len() < usize::MAX - 1,
            ensures
                k == q0.len(),
            decreases q0.len() - k,
        {
            let x = match all.pop_front() {
                Some(x) => x,
                None => {
                    assert(q0.skip(k).len() == 0);
                    break ;
                },
            };
            proof {
                assert(x == q0[k]);
            }
            let i: usize = x.index().unwrap();
            let target = self.shares[i].target();
            let hit: bool = match target {
                Some(t) => t == c,
                None => false,
            };
            if hit {
                self.shares[i].place = Place::Blocked(c);
                self.services[ci].avail_or_blocked.push_back(x);
            } else {
                self.send_list.push_back(x);
            }
            proof {
                reveal(Seq::filter);
                assert(x == link_of(i as int));
                assert(q0.skip(k).skip(1) =~= q0.skip(k + 1));
                let t1 = q0.take(k + 1);
                assert(t1.drop_last() =~= q0.take(k));
                assert(t1.last() == x);
                assert(targets(s0, c)(x) == hit);
                assert(targets_other(s0, c)(x) == !hit);
                assert(!q0.take(k).contains(x)) by {
                    if q0.take(k).contains(x) {
                        let m = choose|m: int| 0 <= m < k && q0.take(k)[m] == x;
                        assert(q0[m] == q0[k]);
                    }
                }
                assert forall|j: int| 0 <= j < s0.len() implies #[trigger] self.shares@[j] == (
                if t1.contains(link_of(j)) && s0[j].spec_target() == Some(c) {
                    Share { place: Place::Blocked(c), ..s0[j] }
                } else {
                    s0[j]
                }) by {
                    if j == i {
                        assert(t1[k] == link_of(j));
                    } else {
                        if q0.take(k).contains(link_of(j)) {
                            let m = choose|m: int| 0 <= m < k && q0.take(k)[m] == link_of(j);
                            assert(t1[m] == link_of(j));
                        }
                        if t1.contains(link_of(j)) {
                            let m = choose|m: int| 0 <= m < t1.len() && t1[m] == link_of(j);
                            assert(m != k);
                            assert(q0.take(k)[m] == link_of(j));
                        }
                    }
                }
                k = k + 1;
            }
        }
        proof {
            assert(q0.take(k) =~= q0);
            assert forall|i: int| 0 <= i < s0.len()
                implies #[trigger] self.shares@[i] == (if s0[i].place
                == Place::Sending && s0[i].spec_target() == Some(c) {
                Share { place: Place::Blocked(c), ..s0[i] }
            } else {
                s0[i]
            }) by {
                if q0.contains(link_of(i)) {
                    let m = choose|m: int| 0 <= m < q0.len() && q0[m] == link_of(i);
                    assert(q0[m].slot().unwrap() == i);
                }
                if s0[i].place == Place::Sending {
                    assert(list_full(q0, s0, Place::Sending));
                }
            }
            Self::lemma_swept(old(self), self, c);
        }
    }
}

/// What one flags byte does to the state: nothing, where the service is
/// already as the byte says; else the service becomes available, or
/// unavailable.
pub open spec fn service_step(before: &Core, after: &Core, c: Code, flags: u8) -> bool {
    if flag_avail(flags) == before.avail(c) {
        *after == *before
    } else if flag_avail(flags) {
        after.flushed(before, c)
    } else {
        after.swept(before, c)
    }
}

/// What a registry packet does to the state: the steps for its flags bytes,
/// one after the other, the byte at index `i` for the service with code `i`.
pub open spec fn updated(before: &Core, after: &Core, flags: Seq<u8>) -> bool {
    exists|states: Seq<Core>|
        {
            &&& states.len() == flags.len() + 1
            &&& states[0] == *before
            &&& states[flags.len() as int] == *after
            &&& forall|i: int|
                0 <= i < flags.len() ==> service_step(
                    &states[i],
                    #[trigger] &states[i + 1],
                    i as Code,
                    flags[i],
                )
        }
}

impl Core {
    /// Brings the services' availability in line with the flags bytes of a
    /// registry packet.  A packet with more bytes than there are services is a
    /// fault, and changes nothing.
    pub fn update_services(&mut self, flags: &[u8]) -> (r: Result<(), Fault>)
        requires
            old(self).wf(),
        ensures
            final(self).wf(),
            final(self).registry_kept(old(self)),
            match r {
                Ok(()) => flags@.len() <= old(self).services@.len() && updated(
                    old(self),
                    final(self),
                    flags@,
                ),
                Err(e) => e == Fault::UnknownService && flags@.len() > old(self).services@.len()
                    && *final(self) == *old(self),
            },
            final(self).services@.len() == old(self).services@.len(),
            final(self).names == old(self).names,
            final(self).tasks == old(self).tasks,
            final(self).shares@.len() == old(self).shares@.len(),
    {
        if flags.len() > self.services.len() {
            return Err(Fault::UnknownService);
        }
        let ghost mut states: Seq<Core> = seq![*self];
        let mut i: usize = 0;
        while i < flags.len()
            invariant
                self.wf(),
                i <= flags@.len() <= self.services@.len(),
                self.services@.len() == old(self).services@.len(),
                self.names == old(self).names,
                self.tasks == old(self).tasks,
                self.shares@.len() == old(self).shares@.len(),
                states.len() == i + 1,
                states[0] == *old(self),
                states[i as int] == *self,
                forall|k: int|
                    0 <= k < i ==> service_step(
                        &states[k],
                        #[trigger] &states[k + 1],
                        k as Code,
                        flags@[k],
                    ),
            decreases flags@.len() - i,
        {
            let ghost before = *self;
            let c: Code = i as Code;
            let avail: bool = flags[i] & SERVICE_STATE_AVAIL != 0;
            if avail != self.services[i].is_avail() {
                if avail {
                    self.make_available(c);
                } else {
                    self.make_unavailable(c);
                }
            }
            proof {
                let next = states.push(*self);
                assert(service_step(&before, &next[i + 1], i as Code, flags@[i as int]));
                assert forall|k: int| 0 <= k < i + 1 implies service_step(
                    &next[k],
                    #[trigger] &next[k + 1],
                    k as Code,
                    flags@[k],
                ) by {
                    if k < i {
                        assert(next[k] == states[k]);
                        assert(next[k + 1] == states[k + 1]);
                        assert(service_step(&states[k], &states[k + 1], k as Code, flags@[k]));
                    } else {
                        assert(next[k] == before);
                    }
                }
                states = next;
            }
            i += 1;
        }
        Ok(())
    }
}

} // verus!
