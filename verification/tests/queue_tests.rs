use reconstruction::dispatch::Job;
use reconstruction::models::{Alghorithm, ImageSize};
use reconstruction::protocol::{read_text_message, MESSAGE_SIZE};
use reconstruction::queue::{QueuedJob, RequestQueue, ServerAction};

#[test]
fn empty_queue_has_no_job() {
    let mut q = RequestQueue::new();
    assert_eq!(q.next_job(), None);
    assert_eq!(q.next_action(), ServerAction::Idle);
}

#[test]
fn enqueue_returns_priority() {
    let mut q = RequestQueue::new();
    assert_eq!(q.enqueue(1, 1, 60), 1);
    assert_eq!(q.enqueue(2, 2, 30), 2);
}

#[test]
fn small_images_served_first_concrete() {
    let mut q = RequestQueue::new();
    q.enqueue(1, 1, 60);
    q.enqueue(2, 2, 60);
    q.enqueue(3, 1, 30);
    q.enqueue(4, 2, 60);
    let first = q.next_job().unwrap();
    assert_eq!(first, QueuedJob { client_id: 3, algorithm: 1, size: 30, priority: 2 });
    let mut rest: Vec<u128> = Vec::new();
    while let Some(job) = q.next_job() {
        assert_eq!(job.size, 60);
        assert_eq!(job.priority, 1);
        rest.push(job.client_id);
    }
    rest.sort();
    assert_eq!(rest, vec![1, 2, 4]);
}

#[test]
fn same_request_queued_once() {
    let mut q = RequestQueue::new();
    q.enqueue(7, 1, 30);
    q.enqueue(7, 1, 30);
    assert!(q.next_job().is_some());
    assert_eq!(q.next_job(), None);
}

#[test]
fn next_action_runs_supported_job() {
    let mut q = RequestQueue::new();
    q.enqueue(9, 2, 30);
    assert_eq!(
        q.next_action(),
        ServerAction::Run {
            client_id: 9,
            priority: 2,
            job: Job { algorithm: Alghorithm::CGNR, size: ImageSize::Small },
        }
    );
    assert_eq!(q.next_action(), ServerAction::Idle);
}

#[test]
fn next_action_rejects_unsupported_job() {
    let mut q = RequestQueue::new();
    q.enqueue(5, 3, 60);
    assert_eq!(q.next_action(), ServerAction::Reject { client_id: 5, algorithm: 3 });
    q.enqueue(6, 1, 45);
    assert_eq!(q.next_action(), ServerAction::Reject { client_id: 6, algorithm: 1 });
}

#[test]
fn accept_request_queues_and_notifies() {
    let mut q = RequestQueue::new();
    let notice = q.accept_request(11, 1, 60);
    assert_eq!(notice.len(), MESSAGE_SIZE);
    let text = "Adicionado a fila de prioridades";
    assert_eq!(&notice[0..8], &(text.len() as u64).to_le_bytes());
    assert_eq!(&notice[8..8 + text.len()], text.as_bytes());
    assert!(notice[8 + text.len()..].iter().all(|b| *b == 0));
    assert_eq!(read_text_message(&notice), Some(text.to_string()));
    assert_eq!(q.next_job(), Some(QueuedJob { client_id: 11, algorithm: 1, size: 60, priority: 1 }));
}

#[test]
fn draining_takes_each_once_concrete() {
    let mut q = RequestQueue::new();
    let requests = [(1u128, 1, 60), (2, 2, 30), (3, 1, 60), (4, 1, 30), (5, 2, 60), (2, 2, 30)];
    for (id, alg, size) in requests {
        q.enqueue(id, alg, size);
    }
    let mut taken = Vec::new();
    let mut last_priority = u32::MAX;
    while let Some(job) = q.next_job() {
        assert!(job.priority <= last_priority);
        last_priority = job.priority;
        taken.push((job.client_id, job.algorithm, job.size));
    }
    assert_eq!(q.next_job(), None);
    taken.sort();
    assert_eq!(taken, vec![(1, 1, 60), (2, 2, 30), (3, 1, 60), (4, 1, 30), (5, 2, 60)]);
}
