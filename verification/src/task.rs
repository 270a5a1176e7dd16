//! The cooperative scheduler's bookkeeping: task identities, the FIFO of ready
//! tasks, and the order in which a blocked program polls, runs and drives I/O.

use std::collections::VecDeque;
use vstd::prelude::*;

verus! {

/// The identity of the top-level task.
pub const TOP_TASK: usize = 0;

/// The handle by which a suspended operation has its task made ready.
#[derive(Clone, Copy, Debug, PartialEq, Eq, Structural)]
pub struct Waker {
    pub task: usize,
}

/// What the program does next while it is blocked on its top-level task.
#[derive(Clone, Copy, Debug, PartialEq, Eq, Structural)]
pub enum Action {
    /// Poll the top-level task; stop if it is finished.
    PollTop,
    /// Run the task with this identity.
    Run(usize),
    /// Perform one drive-loop iteration.
    DriveIo,
}

/// The ready queue and the program's place in the block-on cycle.
pub struct Tasks {
    ready: VecDeque<usize>,
    next_id: usize,
    rerun: bool,
    draining: bool,
}

impl Tasks {
    /// The ready tasks, the next to run first.
    pub closed spec fn ready(&self) -> Seq<usize> {
        self.ready@
    }

    /// Whether the top-level task asked to be polled again.
    pub closed spec fn rerun(&self) -> bool {
        self.rerun
    }

    /// Whether the program is running ready tasks, between two polls of the
    /// top-level task.
    pub closed spec fn draining(&self) -> bool {
        self.draining
    }

    /// The identity that the next spawned task gets.
    pub closed spec fn next_id(&self) -> usize {
        self.next_id
    }

    /// No task is in the ready queue twice, and the top-level task is never in
    /// it.
    pub open spec fn wf(&self) -> bool {
        &&& self.ready().no_duplicates()
        &&& !self.ready().contains(TOP_TASK)
        &&& self.next_id() >= 1
        &&& forall|k: int| 0 <= k < self.ready().len() ==> self.ready()[k] < self.next_id()
    }

    /// The ready queue, and whether the top-level task asked to be polled
    /// again.
    pub open spec fn state(&self) -> (Seq<usize>, bool) {
        (self.ready(), self.rerun())
    }

    /// The ready queue and the top-level task's request after a waker was
    /// woken, if there is one.
    pub open spec fn woken(state: (Seq<usize>, bool), next_id: usize, waker: Option<Waker>) -> (
        Seq<usize>,
        bool,
    ) {
        match waker {
            Some(w) => (Self::spec_wake(state.0, next_id, w.task), state.1 || w.task == TOP_TASK),
            None => state,
        }
    }

    /// Waking changes neither the place in the block-on cycle nor the
    /// identities that are given out.
    pub open spec fn kept(&self, before: &Tasks) -> bool {
        self.draining() == before.draining() && self.next_id() == before.next_id()
    }

    /// The state after waking `task`.
    pub open spec fn spec_wake(ready: Seq<usize>, next_id: usize, task: usize) -> Seq<usize> {
        if task == TOP_TASK || task >= next_id || ready.contains(task) {
            ready
        } else {
            ready.push(task)
        }
    }

    pub fn new() -> (r: Self)
        ensures
            r.wf(),
            r.ready() == Seq::<usize>::empty(),
            !r.rerun(),
            !r.draining(),
            r.next_id() == 1,
    {
        Tasks { ready: VecDeque::new(), next_id: 1, rerun: false, draining: false }
    }

    fn is_ready(&self, task: usize) -> (r: bool)
        ensures
            r == self.ready().contains(task),
    {
        let mut i: usize = 0;
        while i < self.ready.len()
            invariant
                i <= self.ready@.len(),
                forall|k: int| 0 <= k < i ==> self.ready@[k] != task,
            decreases self.ready@.len() - i,
        {
            if self.ready[i] == task {
                return true;
            }
            i += 1;
        }
        false
    }

    /// Makes a task ready.  Waking the top-level task asks for another poll of
    /// it; a task that is already ready stays where it is in the queue, and an
    /// identity that no task was given is ignored.
    pub fn wake(&mut self, waker: Waker)
        requires
            old(self).wf(),
        ensures
            final(self).wf(),
            final(self).ready()
                == Self::spec_wake(old(self).ready(), old(self).next_id(), waker.task),
            final(self).rerun() == (old(self).rerun() || waker.task == TOP_TASK),
            final(self).draining() == old(self).draining(),
            final(self).next_id() == old(self).next_id(),
    {
        if waker.task == TOP_TASK {
            self.rerun = true;
        } else if waker.task < self.next_id && !self.is_ready(waker.task) {
            self.ready.push_back(waker.task);
            proof {
                let before = old(self).ready();
                assert forall|i: int, j: int|
                    0 <= i < self.ready@.len() && 0 <= j < self.ready@.len() && i != j
                        implies self.ready@[i]
                    != self.ready@[j] by {
                    if i < before.len() && j < before.len() {
                    } else if i < before.len() {
                        assert(before.contains(before[i]));
                    } else {
                        assert(before.contains(before[j]));
                    }
                }
                assert forall|k: int| 0 <= k < self.ready@.len() implies self.ready@[k]
                    != TOP_TASK by {
                    if k < before.len() {
                        assert(before.contains(before[k]));
                    }
                }
            }
        }
    }

    /// Wakes an operation's waker, if it left one.
    pub fn wake_option(&mut self, waker: Option<Waker>)
        requires
            old(self).wf(),
        ensures
            final(self).wf(),
            final(self).ready() == match waker {
                Some(w) => Self::spec_wake(old(self).ready(), old(self).next_id(), w.task),
                None => old(self).ready(),
            },
            final(self).rerun() == (old(self).rerun() || waker == Some(Waker { task: TOP_TASK })),
            final(self).draining() == old(self).draining(),
            final(self).next_id() == old(self).next_id(),
    {
        if let Some(w) = waker {
            self.wake(w);
        }
    }

    /// Gives a new task its identity and makes it ready: behind every task
    /// that is ready already.  Returns `None` when identities have run out.
    pub fn spawn(&mut self) -> (r: Option<Waker>)
        requires
            old(self).wf(),
        ensures
            final(self).wf(),
            old(self).next_id() < usize::MAX <==> r.is_some(),
            r.is_some() ==> r == Some(Waker { task: old(self).next_id() })
                && final(self).next_id() == old(self).next_id() + 1
                && final(self).ready() == old(self).ready().push(old(self).next_id()),
            r.is_none() ==> final(self).ready() == old(self).ready()
                && final(self).next_id() == old(self).next_id(),
            final(self).rerun() == old(self).rerun(),
            final(self).draining() == old(self).draining(),
    {
        if self.next_id == usize::MAX {
            return None;
        }
        let id: usize = self.next_id;
        self.next_id = id + 1;
        self.ready.push_back(id);
        proof {
            let before = old(self).ready();
            assert(self.ready@ == before.push(id));
            assert(id != TOP_TASK);
        }
        Some(Waker { task: id })
    }

    /// What the state and the action are after one step of the block-on
    /// cycle.
    pub open spec fn spec_next(ready: Seq<usize>, rerun: bool, draining: bool) -> (
        Action,
        Seq<usize>,
        bool,
        bool,
    ) {
        if !draining {
            (Action::PollTop, ready, rerun, true)
        } else if ready.len() > 0 {
            (Action::Run(ready[0]), ready.skip(1), rerun, true)
        } else if rerun {
            (Action::PollTop, ready, false, true)
        } else {
            (Action::DriveIo, ready, false, false)
        }
    }

    /// One step of the block-on cycle.  The top-level task is polled first.
    /// After a poll that left it pending, every ready task is run, the
    /// oldest first and each removed from the queue before it runs.  When none
    /// is left, the top-level task is polled again if it was woken meanwhile;
    /// if not, one drive-loop iteration comes first.
    pub fn next(&mut self) -> (r: Action)
        requires
            old(self).wf(),
        ensures
            final(self).wf(),
            (r, final(self).ready(), final(self).rerun(), final(self).draining())
                == Self::spec_next(
                old(self).ready(),
                old(self).rerun(),
                old(self).draining(),
            ),
            final(self).next_id() == old(self).next_id(),
    {
        if !self.draining {
            self.draining = true;
            return Action::PollTop;
        }
        match self.ready.pop_front() {
            Some(task) => {
                proof {
                    let before = old(self).ready();
                    assert(self.ready@ == before.skip(1));
                    assert forall|k: int| 0 <= k < self.ready@.len() implies self.ready@[k]
                        != TOP_TASK by {
                        assert(before.contains(before[k + 1]));
                    }
                }
                Action::Run(task)
            },
            None => {
                if self.rerun {
                    self.rerun = false;
                    Action::PollTop
                } else {
                    self.draining = false;
                    Action::DriveIo
                }
            },
        }
    }

    /// The ready tasks, the next to run first.
    pub fn queued(&self) -> (r: Vec<usize>)
        ensures
            r@ == self.ready(),
    {
        let mut r: Vec<usize> = Vec::new();
        let mut i: usize = 0;
        while i < self.ready.len()
            invariant
                i <= self.ready@.len(),
                r@ == self.ready@.take(i as int),
            decreases self.ready@.len() - i,
        {
            r.push(self.ready[i]);
            assert(self.ready@.take(i
                + 1) =~= self.ready@.take(i as int).push(self.ready@[i as int]));
            i += 1;
        }
        assert(self.ready@.take(i as int) =~= self.ready@);
        r
    }

    /// Whether a task is ready to run.
    pub fn has_ready(&self) -> (r: bool)
        ensures
            r == (self.ready().len() > 0),
    {
        self.ready.len() > 0
    }

    /// Whether the top-level task asked to be polled again.
    pub fn wants_rerun(&self) -> (r: bool)
        ensures
            r == self.rerun(),
    {
        self.rerun
    }
}

} // verus!
