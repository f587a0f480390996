//! The deployment queue: a bounded first-in, first-out buffer between the
//! many producers that accept deployment requests and the single worker that
//! carries them out.

use std::collections::VecDeque;
use vstd::prelude::*;

verus! {

/// Number of pending deployments that the service's queue holds at most.
pub const QUEUE_CAPACITY: usize = 500;

/// One request to deploy a commit of a repository to a site.
pub struct DeploymentInformation {
    /// Repository as `owner/name`.
    pub full_name: String,
    /// Bearer credential that may read the repository.
    pub token: String,
    /// Commit hash or tag to deploy.
    pub commit_id: String,
    /// Site that receives the content.
    pub domain: String,
}

/// What a deployment request says, as plain text.
pub struct DeploymentView {
    pub full_name: Seq<char>,
    pub token: Seq<char>,
    pub commit_id: Seq<char>,
    pub domain: Seq<char>,
}

impl View for DeploymentInformation {
    type V = DeploymentView;

    open spec fn view(&self) -> DeploymentView {
        DeploymentView {
            full_name: self.full_name@,
            token: self.token@,
            commit_id: self.commit_id@,
            domain: self.domain@,
        }
    }
}

/// Why a deployment was not accepted.
pub enum QueueError {
    /// The queue holds as many deployments as it may; the refused one is
    /// handed back.
    Full(DeploymentInformation),
}

/// The pending deployments after an attempt to add `job` to a queue that
/// holds `pending` and takes at most `capacity`.
pub open spec fn enqueued(
    pending: Seq<DeploymentView>,
    capacity: nat,
    job: DeploymentView,
) -> Seq<DeploymentView> {
    if pending.len() < capacity {
        pending.push(job)
    } else {
        pending
    }
}

/// The deployment that the worker takes next, if any.
pub open spec fn next_served(pending: Seq<DeploymentView>) -> Option<DeploymentView> {
    if pending.len() > 0 {
        Some(pending[0])
    } else {
        None
    }
}

/// The pending deployments after the worker took the next one.
pub open spec fn dequeued(pending: Seq<DeploymentView>) -> Seq<DeploymentView> {
    if pending.len() > 0 {
        pending.subrange(1, pending.len() as int)
    } else {
        pending
    }
}

/// The text of each job, oldest first.
pub open spec fn job_views(jobs: Seq<DeploymentInformation>) -> Seq<DeploymentView> {
    jobs.map_values(|job: DeploymentInformation| job@)
}

/// A bounded queue of deployments, served oldest first.
pub struct DeploymentQueue {
    jobs: VecDeque<DeploymentInformation>,
    capacity: usize,
}

impl View for DeploymentQueue {
    type V = Seq<DeploymentView>;

    /// The pending deployments, oldest first.
    closed spec fn view(&self) -> Seq<DeploymentView> {
        job_views(self.jobs@)
    }
}

impl DeploymentQueue {
    #[verifier::type_invariant]
    spec fn within_capacity(self) -> bool {
        self.jobs@.len() <= self.capacity
    }

    /// The number of deployments that the queue takes at most.
    pub closed spec fn limit(&self) -> nat {
        self.capacity as nat
    }

    /// An empty queue that takes at most `capacity` deployments.
    pub fn new(capacity: usize) -> (queue: DeploymentQueue)
        ensures
            queue@ == Seq::<DeploymentView>::empty(),
            queue.limit() == capacity,
    {
        DeploymentQueue { jobs: VecDeque::new(), capacity }
    }

    /// The number of deployments that the queue takes at most.
    pub fn capacity(&self) -> (capacity: usize)
        ensures
            capacity == self.limit(),
    {
        self.capacity
    }

    /// The number of pending deployments.
    pub fn len(&self) -> (len: usize)
        ensures
            len == self@.len(),
            len <= self.limit(),
    {
        proof {
            use_type_invariant(self);
        }
        self.jobs.len()
    }

    /// Whether no deployment is pending.
    pub fn is_empty(&self) -> (empty: bool)
        ensures
            empty == (self@.len() == 0),
    {
        self.jobs.len() == 0
    }

    /// Whether the queue would refuse another deployment.
    pub fn is_full(&self) -> (full: bool)
        ensures
            full == (self@.len() >= self.limit()),
    {
        self.jobs.len() >= self.capacity
    }

    /// Adds a deployment behind all pending ones. A full queue refuses it,
    /// keeps what it holds and hands the deployment back: none is dropped
    /// without notice and the caller is never made to wait.
    pub fn enqueue(&mut self, job: DeploymentInformation) -> (accepted: Result<(), QueueError>)
        ensures
            final(self).limit() == old(self).limit(),
            final(self)@ == enqueued(old(self)@, old(self).limit(), job@),
            accepted is Ok <==> old(self)@.len() < old(self).limit(),
            accepted matches Err(QueueError::Full(refused)) ==> refused == job,
    {
        proof {
            use_type_invariant(&*self);
        }
        if self.jobs.len() >= self.capacity {
            return Err(QueueError::Full(job));
        }
        let mut taken = DeploymentQueue::new(self.capacity);
        std::mem::swap(self, &mut taken);
        let DeploymentQueue { mut jobs, capacity } = taken;
        jobs.push_back(job);
        *self = DeploymentQueue { jobs, capacity };
        Ok(())
    }

    /// Takes the oldest pending deployment out of the queue.
    pub fn dequeue(&mut self) -> (job: Option<DeploymentInformation>)
        ensures
            final(self).limit() == old(self).limit(),
            final(self)@ == dequeued(old(self)@),
            job is Some <==> old(self)@.len() > 0,
            job matches Some(taken) ==> next_served(old(self)@) == Some(taken@),
    {
        proof {
            use_type_invariant(&*self);
        }
        let mut taken = DeploymentQueue::new(self.capacity);
        std::mem::swap(self, &mut taken);
        let DeploymentQueue { mut jobs, capacity } = taken;
        let job = jobs.pop_front();
        *self = DeploymentQueue { jobs, capacity };
        job
    }
}

/// One use of the queue: a producer offers a deployment, or the worker asks
/// for the next one.
pub enum QueueOp {
    Offer(DeploymentView),
    Take,
}

/// What a series of uses has led to: the deployments that were accepted, in
/// the order of their acceptance; those that the worker has taken, in the
/// order in which it took them; and those still pending.
pub struct QueueHistory {
    pub accepted: Seq<DeploymentView>,
    pub served: Seq<DeploymentView>,
    pub pending: Seq<DeploymentView>,
}

/// The history after one more use of a queue of the given capacity.
pub open spec fn history_step(history: QueueHistory, op: QueueOp, capacity: nat) -> QueueHistory {
    match op {
        QueueOp::Offer(job) => QueueHistory {
            accepted: if history.pending.len() < capacity {
                history.accepted.push(job)
            } else {
                history.accepted
            },
            served: history.served,
            pending: enqueued(history.pending, capacity, job),
        },
        QueueOp::Take => QueueHistory {
            accepted: history.accepted,
            served: match next_served(history.pending) {
                Some(job) => history.served.push(job),
                None => history.served,
            },
            pending: dequeued(history.pending),
        },
    }
}

/// The history of a queue that starts empty and is used as `ops` says.
pub open spec fn history_of(ops: Seq<QueueOp>, capacity: nat) -> QueueHistory
    decreases ops.len(),
{
    if ops.len() == 0 {
        QueueHistory { accepted: Seq::empty(), served: Seq::empty(), pending: Seq::empty() }
    } else {
        history_step(history_of(ops.drop_last(), capacity), ops.last(), capacity)
    }
}

/// Deployments are served in the order in which they were accepted: however
/// offers and takes alternate, the deployments taken so far, followed by the
/// pending ones, are the accepted ones in their order of acceptance. Never
/// are more pending than the capacity allows.
pub proof fn lemma_served_in_order_of_acceptance(ops: Seq<QueueOp>, capacity: nat)
    ensures
        history_of(ops, capacity).accepted == history_of(ops, capacity).served + history_of(
            ops,
            capacity,
        ).pending,
        history_of(ops, capacity).pending.len() <= capacity,
    decreases ops.len(),
{
    if ops.len() > 0 {
        lemma_served_in_order_of_acceptance(ops.drop_last(), capacity);
        let before = history_of(ops.drop_last(), capacity);
        let after = history_of(ops, capacity);
        assert(after.accepted =~= after.served + after.pending);
    } else {
        let start = history_of(ops, capacity);
        assert(start.accepted =~= start.served + start.pending);
    }
}

/// Of two accepted deployments the one accepted first is taken first: when
/// both have been served, they stand in the served series in the order of
/// their acceptance.
pub proof fn lemma_earlier_offer_served_first(ops: Seq<QueueOp>, capacity: nat, i: int, j: int)
    requires
        0 <= i < j < history_of(ops, capacity).served.len(),
    ensures
        history_of(ops, capacity).served[i] == history_of(ops, capacity).accepted[i],
        history_of(ops, capacity).served[j] == history_of(ops, capacity).accepted[j],
{
    lemma_served_in_order_of_acceptance(ops, capacity);
}

} // verus!
