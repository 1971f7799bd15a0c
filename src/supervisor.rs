use vstd::prelude::*;

use crate::sync::{EventKind, SyncError};

verus! {

/// Identifies one task: a chain and one of its event streams.
#[derive(Clone, Copy, Debug, PartialEq, Eq, Structural)]
pub struct TaskTag {
    pub chain_id: u32,
    pub kind: EventKind,
}

#[derive(Clone, Copy, Debug, PartialEq, Eq, Structural)]
pub enum TaskStatus {
    Running,
    Terminated(SyncError),
}

pub open spec fn kind_at(k: int) -> EventKind {
    if k == 0 {
        EventKind::Dispatch
    } else if k == 1 {
        EventKind::Delivery
    } else {
        EventKind::GasPayment
    }
}

/// Three tags per chain, in chain order, each chain's dispatch, delivery and gas
/// payment streams in that order.
pub open spec fn spec_plan(chains: Seq<u32>) -> Seq<TaskTag> {
    Seq::new(3 * chains.len(), |i: int| TaskTag { chain_id: chains[i / 3], kind: kind_at(i % 3) })
}

pub open spec fn count_running(s: Seq<TaskStatus>) -> nat
    decreases s.len(),
{
    if s.len() == 0 {
        0
    } else {
        count_running(s.drop_last()) + if s.last() == TaskStatus::Running {
            1nat
        } else {
            0nat
        }
    }
}

/// The tags of all tasks for the given chains.
pub fn plan_tasks(chains: &Vec<u32>) -> (r: Vec<TaskTag>)
    requires
        3 * chains@.len() <= usize::MAX,
    ensures
        r@ == spec_plan(chains@),
{
    let mut tags: Vec<TaskTag> = Vec::new();
    let mut i: usize = 0;
    while i < chains.len()
        invariant
            i <= chains@.len(),
            3 * chains@.len() <= usize::MAX,
            tags@.len() == 3 * i,
            forall|j: int|
                0 <= j < 3 * i ==> #[trigger] tags@[j] == (TaskTag {
                    chain_id: chains@[j / 3],
                    kind: kind_at(j % 3),
                }),
        decreases chains@.len() - i,
    {
        let c = chains[i];
        tags.push(TaskTag { chain_id: c, kind: EventKind::Dispatch });
        tags.push(TaskTag { chain_id: c, kind: EventKind::Delivery });
        tags.push(TaskTag { chain_id: c, kind: EventKind::GasPayment });
        proof {
            assert forall|j: int| 3 * i <= j < 3 * i + 3 implies #[trigger] tags@[j] == (TaskTag {
                chain_id: chains@[j / 3],
                kind: kind_at(j % 3),
            }) by {
                assert(j / 3 == i);
            }
        }
        i = i + 1;
    }
    proof {
        assert(tags@ =~= spec_plan(chains@));
    }
    tags
}

/// Watches every task; the first one to end gives the cause for the whole.
pub struct Supervisor {
    tags: Vec<TaskTag>,
    status: Vec<TaskStatus>,
    first_exit: Option<(TaskTag, SyncError)>,
}

pub struct SupervisorView {
    pub tags: Seq<TaskTag>,
    pub status: Seq<TaskStatus>,
    pub first_exit: Option<(TaskTag, SyncError)>,
}

impl View for Supervisor {
    type V = SupervisorView;

    closed spec fn view(&self) -> SupervisorView {
        SupervisorView { tags: self.tags@, status: self.status@, first_exit: self.first_exit }
    }
}

impl Supervisor {
    pub open spec fn wf(&self) -> bool {
        self@.tags.len() == self@.status.len()
    }

    /// Every task of the given chains, all running.
    pub fn new(chains: &Vec<u32>) -> (r: Supervisor)
        requires
            3 * chains@.len() <= usize::MAX,
        ensures
            r.wf(),
            r@.tags == spec_plan(chains@),
            r@.status == Seq::new(3 * chains@.len(), |i: int| TaskStatus::Running),
            r@.first_exit is None,
    {
        let tags = plan_tasks(chains);
        let mut status: Vec<TaskStatus> = Vec::new();
        let mut i: usize = 0;
        while i < tags.len()
            invariant
                i <= tags@.len(),
                status@ == Seq::new(i as nat, |j: int| TaskStatus::Running),
            decreases tags@.len() - i,
        {
            status.push(TaskStatus::Running);
            proof {
                assert(status@ =~= Seq::new(i as nat + 1, |j: int| TaskStatus::Running));
            }
            i = i + 1;
        }
        Supervisor { tags, status, first_exit: None }
    }

    pub fn len(&self) -> (r: usize)
        ensures
            r == self@.tags.len(),
    {
        self.tags.len()
    }

    pub fn tag(&self, i: usize) -> (r: TaskTag)
        requires
            i < self@.tags.len(),
        ensures
            r == self@.tags[i as int],
    {
        self.tags[i]
    }

    pub fn status(&self, i: usize) -> (r: TaskStatus)
        requires
            self.wf(),
            i < self@.tags.len(),
        ensures
            r == self@.status[i as int],
    {
        self.status[i]
    }

    /// Records that task `i` ended with `cause`. No other task is touched.
    pub fn report_exit(&mut self, i: usize, cause: SyncError)
        requires
            old(self).wf(),
            i < old(self)@.tags.len(),
        ensures
            final(self).wf(),
            final(self)@.tags == old(self)@.tags,
            final(self)@.status == old(self)@.status.update(i as int, TaskStatus::Terminated(cause)),
            final(self)@.first_exit == match old(self)@.first_exit {
                Some(f) => Some(f),
                None => Some((old(self)@.tags[i as int], cause)),
            },
    {
        self.status.set(i, TaskStatus::Terminated(cause));
        if self.first_exit.is_none() {
            self.first_exit = Some((self.tags[i], cause));
        }
    }

    /// The first task to end and why, if any has.
    pub fn aggregate(&self) -> (r: Option<(TaskTag, SyncError)>)
        ensures
            r == self@.first_exit,
    {
        self.first_exit
    }

    /// How many tasks are still running.
    pub fn running_count(&self) -> (r: usize)
        ensures
            r == count_running(self@.status),
    {
        let mut n: usize = 0;
        let mut i: usize = 0;
        while i < self.status.len()
            invariant
                i <= self.status@.len(),
                n == count_running(self.status@.take(i as int)),
                n <= i,
            decreases self.status@.len() - i,
        {
            proof {
                assert(self.status@.take(i as int + 1).drop_last() == self.status@.take(i as int));
            }
            if self.status[i] == TaskStatus::Running {
                n = n + 1;
            }
            i = i + 1;
        }
        proof {
            assert(self.status@.take(i as int) == self.status@);
        }
        n
    }
}

proof fn lemma_count_update(s: Seq<TaskStatus>, i: int, v: TaskStatus)
    requires
        0 <= i < s.len(),
        s[i] == TaskStatus::Running,
        v != TaskStatus::Running,
    ensures
        count_running(s.update(i, v)) + 1 == count_running(s),
    decreases s.len(),
{
    let u = s.update(i, v);
    if i == s.len() - 1 {
        assert(u.drop_last() == s.drop_last());
    } else {
        assert(u.drop_last() == s.drop_last().update(i, v));
        lemma_count_update(s.drop_last(), i, v);
    }
}

proof fn lemma_count_all_running(n: nat)
    ensures
        count_running(Seq::new(n, |i: int| TaskStatus::Running)) == n,
    decreases n,
{
    if n > 0 {
        assert(Seq::new(n, |i: int| TaskStatus::Running).drop_last() == Seq::new(
            (n - 1) as nat,
            |i: int| TaskStatus::Running,
        ));
        lemma_count_all_running((n - 1) as nat);
    }
}

/// When one task of a freshly started set ends, it alone stops: every other task
/// keeps running, so one fewer runs than were started.
pub proof fn lemma_exit_isolated(chains: Seq<u32>, i: int, cause: SyncError)
    requires
        0 <= i < 3 * chains.len(),
    ensures
        ({
            let before = Seq::new(3 * chains.len(), |j: int| TaskStatus::Running);
            let after = before.update(i, TaskStatus::Terminated(cause));
            &&& count_running(after) + 1 == 3 * chains.len()
            &&& forall|j: int| 0 <= j < after.len() && j != i ==> after[j] == TaskStatus::Running
        }),
{
    let before = Seq::new(3 * chains.len(), |j: int| TaskStatus::Running);
    lemma_count_all_running(3 * chains.len());
    lemma_count_update(before, i, TaskStatus::Terminated(cause));
}

} // verus!
