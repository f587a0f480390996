//! The deployment service: the queue that producers fill and the single
//! worker that empties it, one deployment at a time.

use crate::pipeline::{
    begun, clear_staging, step, Action, ActionView, Event, EventView, JobError, JobRun, JobRunView,
};
use crate::queue::{
    dequeued, enqueued, next_served, DeploymentInformation, DeploymentQueue, DeploymentView,
    QueueError, QUEUE_CAPACITY,
};
use vstd::prelude::*;

verus! {

/// The queue of pending deployments together with the deployment that the
/// worker is carrying out, if any.
pub struct DeploymentService {
    root_domain: String,
    queue: DeploymentQueue,
    running: Option<JobRun>,
}

/// The service as plain values.
pub struct ServiceView {
    /// The domain below which every site lies.
    pub root_domain: Seq<char>,
    /// The pending deployments, oldest first.
    pub pending: Seq<DeploymentView>,
    /// The number of deployments that may be pending at most.
    pub limit: nat,
    /// The deployment in progress.
    pub running: Option<JobRunView>,
}

/// What the worker is to do.
pub enum WorkerAction {
    /// Nothing: no deployment may be started now.
    Idle,
    /// Carry out the action and report its outcome.
    Perform(Action),
    /// Take note that the deployment of `job` has ended with `result`; the
    /// request is discarded.
    Finished { job: DeploymentInformation, result: Result<(), JobError> },
}

/// What the worker is to do, as plain values.
pub enum WorkerActionView {
    Idle,
    Perform(ActionView),
    Finished { job: DeploymentView, result: Result<(), JobError> },
}

impl View for WorkerAction {
    type V = WorkerActionView;

    open spec fn view(&self) -> WorkerActionView {
        match *self {
            WorkerAction::Idle => WorkerActionView::Idle,
            WorkerAction::Perform(action) => WorkerActionView::Perform(action@),
            WorkerAction::Finished { job, result } => WorkerActionView::Finished {
                job: job@,
                result,
            },
        }
    }
}

/// The service after an attempt to queue `job`.
pub open spec fn offered(service: ServiceView, job: DeploymentView) -> ServiceView {
    ServiceView { pending: enqueued(service.pending, service.limit, job), ..service }
}

/// The service after the worker asked for a deployment to start, and what
/// the worker is told. A deployment is started only while none is in
/// progress, and it is the oldest pending one.
pub open spec fn polled(service: ServiceView) -> (ServiceView, WorkerActionView) {
    if service.running is Some {
        (service, WorkerActionView::Idle)
    } else {
        match next_served(service.pending) {
            Some(job) => (
                ServiceView {
                    pending: dequeued(service.pending),
                    running: Some(begun(job, service.root_domain)),
                    ..service
                },
                WorkerActionView::Perform(clear_staging()),
            ),
            None => (service, WorkerActionView::Idle),
        }
    }
}

/// The service after the worker reported the outcome of its last action,
/// and what the worker is told.
pub open spec fn reported(service: ServiceView, event: EventView) -> (
    ServiceView,
    WorkerActionView,
) {
    match service.running {
        None => (service, WorkerActionView::Idle),
        Some(run) => match step(run, event).1 {
            ActionView::Finish { result } => (
                ServiceView { running: None, ..service },
                WorkerActionView::Finished { job: run.job, result },
            ),
            action => (
                ServiceView { running: Some(step(run, event).0), ..service },
                WorkerActionView::Perform(action),
            ),
        },
    }
}

impl View for DeploymentService {
    type V = ServiceView;

    closed spec fn view(&self) -> ServiceView {
        ServiceView {
            root_domain: self.root_domain@,
            pending: self.queue@,
            limit: self.queue.limit(),
            running: match self.running {
                Some(run) => Some(run@),
                None => None,
            },
        }
    }
}

impl DeploymentService {
    /// A service for the sites below `root_domain`, with nothing pending and
    /// nothing in progress.
    pub fn new(root_domain: String) -> (service: DeploymentService)
        ensures
            service@ == (ServiceView {
                root_domain: root_domain@,
                pending: Seq::empty(),
                limit: QUEUE_CAPACITY as nat,
                running: None,
            }),
    {
        DeploymentService { root_domain, queue: DeploymentQueue::new(QUEUE_CAPACITY), running: None }
    }

    /// The number of pending deployments.
    pub fn pending(&self) -> (count: usize)
        ensures
            count == self@.pending.len(),
    {
        self.queue.len()
    }

    /// Whether a deployment is in progress.
    pub fn is_busy(&self) -> (busy: bool)
        ensures
            busy == (self@.running is Some),
    {
        self.running.is_some()
    }

    /// Queues a deployment behind the pending ones. Where as many are
    /// pending as may be, the deployment is refused and handed back, and the
    /// queue stays as it is.
    pub fn queue_deployment(&mut self, data: DeploymentInformation) -> (accepted: Result<
        (),
        QueueError,
    >)
        ensures
            final(self)@ == offered(old(self)@, data@),
            accepted is Ok <==> old(self)@.pending.len() < old(self)@.limit,
            accepted matches Err(QueueError::Full(refused)) ==> refused == data,
    {
        self.queue.enqueue(data)
    }

    /// Starts the oldest pending deployment, unless one is in progress or
    /// none is pending.
    pub fn poll(&mut self) -> (next: WorkerAction)
        ensures
            (final(self)@, next@) == polled(old(self)@),
    {
        if self.running.is_some() {
            return WorkerAction::Idle;
        }
        match self.queue.dequeue() {
            Some(job) => {
                let (run, action) = JobRun::begin(job, self.root_domain.as_str());
                self.running = Some(run);
                WorkerAction::Perform(action)
            },
            None => WorkerAction::Idle,
        }
    }

    /// Takes the outcome of the worker's last action and says what is to be
    /// done next for the deployment in progress.
    pub fn report(&mut self, event: Event) -> (next: WorkerAction)
        ensures
            (final(self)@, next@) == reported(old(self)@, event@),
    {
        match self.running.take() {
            None => WorkerAction::Idle,
            Some(mut run) => {
                let action = run.advance(event);
                match action {
                    Action::Finish { result } => WorkerAction::Finished {
                        job: run.into_job(),
                        result,
                    },
                    other => {
                        self.running = Some(run);
                        WorkerAction::Perform(other)
                    },
                }
            },
        }
    }
}

/// One use of the service: a producer offers a deployment, the worker asks
/// for one to start, or the worker reports an outcome.
pub enum ServiceOp {
    Offer(DeploymentView),
    Poll,
    Report(EventView),
}

/// What a series of uses has led to: the state of the service, the
/// deployments that were accepted, in the order of their acceptance, and
/// those that have ended, in the order in which they ended.
pub struct ServiceHistory {
    pub state: ServiceView,
    pub accepted: Seq<DeploymentView>,
    pub ended: Seq<DeploymentView>,
}

/// The history after one more use of the service.
pub open spec fn service_step(history: ServiceHistory, op: ServiceOp) -> ServiceHistory {
    match op {
        ServiceOp::Offer(job) => ServiceHistory {
            state: offered(history.state, job),
            accepted: if history.state.pending.len() < history.state.limit {
                history.accepted.push(job)
            } else {
                history.accepted
            },
            ended: history.ended,
        },
        ServiceOp::Poll => ServiceHistory { state: polled(history.state).0, ..history },
        ServiceOp::Report(event) => ServiceHistory {
            state: reported(history.state, event).0,
            accepted: history.accepted,
            ended: match reported(history.state, event).1 {
                WorkerActionView::Finished { job, result } => history.ended.push(job),
                _ => history.ended,
            },
        },
    }
}

/// The history of a service that starts with nothing pending and nothing in
/// progress and is used as `ops` says.
pub open spec fn service_history(root_domain: Seq<char>, limit: nat, ops: Seq<ServiceOp>) -> ServiceHistory
    decreases ops.len(),
{
    if ops.len() == 0 {
        ServiceHistory {
            state: ServiceView { root_domain, pending: Seq::empty(), limit, running: None },
            accepted: Seq::empty(),
            ended: Seq::empty(),
        }
    } else {
        service_step(service_history(root_domain, limit, ops.drop_last()), ops.last())
    }
}

/// The deployment in progress, as a series of at most one.
pub open spec fn in_progress(state: ServiceView) -> Seq<DeploymentView> {
    match state.running {
        Some(run) => seq![run.job],
        None => Seq::empty(),
    }
}

/// Ordering: however producers and the worker take turns, deployments end
/// in the order in which they were accepted, and one at a time. The accepted
/// deployments are, in their order, those that have ended, then the one in
/// progress, then the pending ones: so a deployment is started only after
/// every deployment accepted before it has ended.
pub proof fn lemma_deployments_end_in_order(root_domain: Seq<char>, limit: nat, ops: Seq<ServiceOp>)
    ensures
        service_history(root_domain, limit, ops).accepted == service_history(
            root_domain,
            limit,
            ops,
        ).ended + in_progress(service_history(root_domain, limit, ops).state)
            + service_history(root_domain, limit, ops).state.pending,
        service_history(root_domain, limit, ops).state.pending.len() <= limit,
        service_history(root_domain, limit, ops).state.limit == limit,
    decreases ops.len(),
{
    let now = service_history(root_domain, limit, ops);
    if ops.len() == 0 {
        assert(now.accepted =~= now.ended + in_progress(now.state) + now.state.pending);
    } else {
        lemma_deployments_end_in_order(root_domain, limit, ops.drop_last());
        let before = service_history(root_domain, limit, ops.drop_last());
        assert(now == service_step(before, ops.last()));
        match ops.last() {
            ServiceOp::Offer(job) => {},
            ServiceOp::Poll => {},
            ServiceOp::Report(event) => {
                match before.state.running {
                    Some(run) => {
                        crate::runs::lemma_step_keeps_request(run, event);
                    },
                    None => {},
                }
            },
        }
        assert(now.accepted =~= now.ended + in_progress(now.state) + now.state.pending);
    }
}

} // verus!
