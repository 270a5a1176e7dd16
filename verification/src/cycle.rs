//! One iteration of the drive loop, in the two halves that stand before and
//! behind the host call.

use crate::drive::{leading_nops, SendVec};
use crate::error::Fault;
use crate::gate::FLAG_STARTED_OR_RESUMED;
use crate::process::Runtime;
use crate::recv::RecvPlan;
use vstd::prelude::*;

verus! {

/// What to hand to the host: where it may put received bytes, what it may
/// send, and whether it may wait.
pub struct IoPlan<'a> {
    pub recv: RecvPlan,
    pub send: SendVec<'a>,
    /// Whether the host call may block until something can be transferred.
    /// If not, it polls.
    pub wait: bool,
}

impl Runtime {
    /// Whether the host may be called: not while a received packet waits to
    /// be handled.
    pub open spec fn may_receive(&self) -> bool {
        self.recv_buf.spec_plan().len() > 0
    }

    /// Prepares one host call.  There is none while a received packet waits
    /// to be handled.  If there is one, the yields at the front of the send
    /// queue are taken out and their tasks woken first.  The call may wait
    /// only if no yield was found, no task is ready, the top-level task did not
    /// ask to be polled again, and the host has not said since the last call
    /// that execution has started or was resumed.
    pub fn prepare_io(&mut self) -> (r: Result<Option<IoPlan<'_>>, Fault>)
        requires
            old(self).wf(),
        ensures
            final(self).wf(),
            final(self).core.registry_kept(&old(self).core),
            final(self).resumed == (match r {
                Ok(Some(_)) => false,
                _ => old(self).resumed,
            }),
            final(self).recv_buf == old(self).recv_buf,
            final(self).streams == old(self).streams,
            match r {
                Err(e) => old(self).recv_buf.plan_fault() == Some(e)
                    && final(self).core == old(self).core,
                Ok(None) => old(self).recv_buf.plan_fault().is_none() && !old(self).may_receive()
                    && final(self).core == old(self).core,
                Ok(Some(plan)) => {
                    &&& old(self).recv_buf.plan_fault().is_none()
                    &&& old(self).may_receive()
                    &&& plan.recv.len <= 2
                    &&& plan.recv.targets() == old(self).recv_buf.spec_plan()
                    &&& final(self).core.yields_skipped(&old(self).core)
                    &&& plan.send.len <= 3
                    &&& plan.send.flat() == final(self).core.unsent()
                    &&& plan.wait == (leading_nops(
                        old(self).core.send_list@,
                        old(self).core.shares@,
                    ) == 0 && final(self).core.tasks.ready().len() == 0
                        && !final(self).core.tasks.rerun() && !old(self).resumed)
                },
            },
    {
        let recv = match self.recv_buf.plan() {
            Ok(plan) => plan,
            Err(e) => {
                return Err(e);
            },
        };
        assert(recv.targets().len() == recv.len);
        if recv.len == 0 {
            return Ok(None);
        }
        let skipped: bool = self.core.skip_yields();
        let wait: bool = !skipped && !self.core.tasks.has_ready() && !self.core.tasks.wants_rerun()
            && !self.resumed;
        self.resumed = false;
        let send = self.core.send_vec();
        Ok(Some(IoPlan { recv, send, wait }))
    }

    /// What `complete_io` answers: the fault, if any.
    pub open spec fn io_fault(&self, received: int, sent: usize) -> Option<Fault> {
        if self.core.sent_fault(sent).is_some() {
            self.core.sent_fault(sent)
        } else {
            self.recv_buf.receive_fault(received)
        }
    }

    /// Accounts for what one host call transferred: `sent` bytes of the send
    /// vector, and the bytes `received`, which follow what was pending in
    /// the receive buffer.
    pub fn complete_io(&mut self, received: &[u8], sent: usize) -> (r: Result<(), Fault>)
        requires
            old(self).wf(),
        ensures
            final(self).wf(),
            final(self).core.registry_kept(&old(self).core),
            final(self).resumed == old(self).resumed,
            final(self).streams == old(self).streams,
            match r {
                Err(e) => old(self).io_fault(received@.len() as int, sent) == Some(e)
                    && *final(self) == *old(self),
                Ok(()) => {
                    &&& old(self).io_fault(received@.len() as int, sent).is_none()
                    &&& final(self).recv_buf.pending() == old(self).recv_buf.pending() + received@
                    &&& final(self).recv_buf.in_use == old(self).recv_buf.in_use
                    &&& sent == 0 ==> final(self).core == old(self).core
                    &&& sent > 0 ==> final(self).core.accounted(&old(self).core, sent)
                },
            },
    {
        proof {
            assert(self.core.place_valid(crate::send::Place::Sending));
        }
        if self.core.sent_checks(sent) {
            return Err(Fault::SentTooMuch);
        }
        match self.recv_buf.receive(received) {
            Ok(()) => {},
            Err(e) => {
                return Err(e);
            },
        }
        self.core.sent(sent)
    }

    /// The state `mid` lies between the two steps of `io`: it is what
    /// `complete_io` leaves, and what `process_received` starts from.
    pub open spec fn io_done(
        &self,
        before: &Runtime,
        mid: &Runtime,
        received: Seq<u8>,
        sent: usize,
        r: Result<(), Fault>,
    ) -> bool {
        &&& mid.wf()
        &&& mid.resumed == self.resumed
        &&& mid.streams == before.streams
        &&& mid.recv_buf.pending() == before.recv_buf.pending() + received
        &&& mid.recv_buf.in_use == before.recv_buf.in_use
        &&& sent == 0 ==> mid.core == before.core
        &&& sent > 0 ==> mid.core.accounted(&before.core, sent)
        &&& !mid.has_work() ==> r.is_ok() && self.core == mid.core && self.streams == mid.streams
            && self.recv_buf == mid.recv_buf
        &&& mid.has_work() ==> match r {
            Ok(()) => self.processed(mid),
            Err(e) => self.faulted(mid, e),
        }
    }

    /// The second half of a drive-loop iteration: accounts for what the host
    /// call transferred, then dispatches at most one received packet.  After
    /// an iteration without host call, nothing was transferred.  Of the
    /// host's flags, it is kept for the next host call whether execution has
    /// started or was resumed.
    pub fn io(&mut self, received: &[u8], sent: usize, flags: u64) -> (r: Result<(), Fault>)
        requires
            old(self).wf(),
        ensures
            final(self).wf(),
            final(self).core.registry_kept(&old(self).core),
            old(self).io_fault(received@.len() as int, sent).is_none() ==> final(self).resumed == (
            old(self).resumed || flags & FLAG_STARTED_OR_RESUMED != 0),
            old(self).io_fault(received@.len() as int, sent).is_some() ==> r == Err::<(), Fault>(
                old(self).io_fault(received@.len() as int, sent).unwrap(),
            ) && *final(self) == *old(self),
            old(self).io_fault(received@.len() as int, sent).is_none()
                ==> exists|mid: Runtime| #[trigger]
                final(self).io_done(old(self), &mid, received@, sent, r),
    {
        match self.complete_io(received, sent) {
            Ok(()) => {},
            Err(e) => {
                return Err(e);
            },
        }
        if flags & FLAG_STARTED_OR_RESUMED != 0 {
            self.resumed = true;
        }
        let ghost mid = *self;
        let r = self.process_received();
        proof {
            assert(self.io_done(old(self), &mid, received@, sent, r));
        }
        r
    }
}

} // verus!
