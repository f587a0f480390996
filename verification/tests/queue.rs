use doubleblind_science::queue::{DeploymentInformation, DeploymentQueue, QueueError, QUEUE_CAPACITY};
use doubleblind_science::service::{DeploymentService, WorkerAction};

fn job(n: u32) -> DeploymentInformation {
    DeploymentInformation {
        full_name: format!("owner/repo{}", n),
        token: format!("token{}", n),
        commit_id: format!("commit{}", n),
        domain: format!("site{}", n),
    }
}

#[test]
fn new_queue_is_empty() {
    let queue = DeploymentQueue::new(3);
    assert_eq!(queue.len(), 0);
    assert_eq!(queue.capacity(), 3);
    assert!(queue.is_empty());
    assert!(!queue.is_full());
}

#[test]
fn jobs_leave_in_the_order_they_came() {
    let mut queue = DeploymentQueue::new(10);
    assert!(queue.enqueue(job(1)).is_ok());
    assert!(queue.enqueue(job(2)).is_ok());
    assert!(queue.enqueue(job(3)).is_ok());
    assert_eq!(queue.len(), 3);
    assert_eq!(queue.dequeue().unwrap().domain, "site1");
    assert_eq!(queue.dequeue().unwrap().domain, "site2");
    assert_eq!(queue.dequeue().unwrap().domain, "site3");
    assert!(queue.dequeue().is_none());
}

#[test]
fn interleaved_use_keeps_the_order() {
    let mut queue = DeploymentQueue::new(2);
    assert!(queue.enqueue(job(1)).is_ok());
    assert!(queue.enqueue(job(2)).is_ok());
    assert_eq!(queue.dequeue().unwrap().commit_id, "commit1");
    assert!(queue.enqueue(job(3)).is_ok());
    assert_eq!(queue.dequeue().unwrap().commit_id, "commit2");
    assert_eq!(queue.dequeue().unwrap().commit_id, "commit3");
    assert!(queue.is_empty());
}

#[test]
fn dequeue_of_empty_queue_gives_nothing() {
    let mut queue = DeploymentQueue::new(1);
    assert!(queue.dequeue().is_none());
    assert_eq!(queue.len(), 0);
}

#[test]
fn full_queue_refuses_and_hands_the_job_back() {
    let mut queue = DeploymentQueue::new(2);
    assert!(queue.enqueue(job(1)).is_ok());
    assert!(queue.enqueue(job(2)).is_ok());
    assert!(queue.is_full());
    match queue.enqueue(job(3)) {
        Err(QueueError::Full(refused)) => {
            assert_eq!(refused.full_name, "owner/repo3");
            assert_eq!(refused.token, "token3");
            assert_eq!(refused.commit_id, "commit3");
            assert_eq!(refused.domain, "site3");
        }
        Ok(()) => panic!("a full queue accepted a job"),
    }
    assert_eq!(queue.len(), 2);
    assert_eq!(queue.dequeue().unwrap().domain, "site1");
    assert_eq!(queue.dequeue().unwrap().domain, "site2");
    assert!(queue.dequeue().is_none());
}

#[test]
fn queue_of_capacity_zero_refuses_everything() {
    let mut queue = DeploymentQueue::new(0);
    assert!(matches!(queue.enqueue(job(1)), Err(QueueError::Full(_))));
    assert!(queue.is_empty());
}

#[test]
fn refused_job_can_be_queued_once_there_is_room() {
    let mut queue = DeploymentQueue::new(1);
    assert!(queue.enqueue(job(1)).is_ok());
    let refused = match queue.enqueue(job(2)) {
        Err(QueueError::Full(refused)) => refused,
        Ok(()) => panic!("a full queue accepted a job"),
    };
    assert_eq!(queue.dequeue().unwrap().domain, "site1");
    assert!(queue.enqueue(refused).is_ok());
    assert_eq!(queue.dequeue().unwrap().domain, "site2");
}

#[test]
fn service_takes_five_hundred_pending_deployments() {
    assert_eq!(QUEUE_CAPACITY, 500);
    let mut service = DeploymentService::new("example.org".to_string());
    for n in 0..500 {
        assert!(service.queue_deployment(job(n)).is_ok());
    }
    assert_eq!(service.pending(), 500);
    match service.queue_deployment(job(500)) {
        Err(QueueError::Full(refused)) => assert_eq!(refused.domain, "site500"),
        Ok(()) => panic!("the service accepted more than it may hold"),
    }
    assert_eq!(service.pending(), 500);
}

#[test]
fn service_starts_the_oldest_deployment_and_one_at_a_time() {
    let mut service = DeploymentService::new("example.org".to_string());
    assert!(matches!(service.poll(), WorkerAction::Idle));
    assert!(service.queue_deployment(job(1)).is_ok());
    assert!(service.queue_deployment(job(2)).is_ok());
    assert!(!service.is_busy());
    assert!(matches!(service.poll(), WorkerAction::Perform(_)));
    assert!(service.is_busy());
    assert_eq!(service.pending(), 1);
    assert!(matches!(service.poll(), WorkerAction::Idle));
    assert_eq!(service.pending(), 1);
}
