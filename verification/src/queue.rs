use std::collections::hash_map::RandomState;
use std::hash::Hash;
use priority_queue::PriorityQueue;
use vstd::prelude::*;
use crate::dispatch::{priority_for, request_priority, select_job, spec_select_job, Job};
use crate::protocol::{queued_notice_message, spec_frame, spec_queued_notice, spec_text_bytes, MESSAGE_SIZE};

verus! {

/// The `priority_queue` crate's `PriorityQueue`; what it holds is given by
/// `queued`.
#[verifier::external_type_specification]
#[verifier::external_body]
#[verifier::reject_recursive_types(I)]
#[verifier::reject_recursive_types(P)]
#[verifier::reject_recursive_types(H)]
pub struct ExPriorityQueue<I, P, H>(PriorityQueue<I, P, H>) where I: Hash + Eq, P: Ord;

/// A queued job: client id, algorithm code, image side.
pub type JobKey = (u128, i32, i32);

/// The queue type that holds pending jobs by priority.
pub type JobHeap = PriorityQueue<JobKey, u32, RandomState>;

/// What a queue of pending jobs holds: each queued job with its priority.
pub uninterp spec fn queued(q: JobHeap) -> Map<JobKey, u32>;

/// `PriorityQueue::new`: the queue it returns holds nothing.
#[verifier::external_body]
fn pq_new() -> (fresh: JobHeap)
    ensures
        queued(fresh).dom() == Set::<JobKey>::empty(),
{
    PriorityQueue::new()
}

/// `PriorityQueue::push`: the item is inserted with the given priority, or, if an
/// equal item is queued already, its priority is replaced and the old one returned.
#[verifier::external_body]
fn pq_push(heap: &mut JobHeap, job: JobKey, priority: u32) -> (previous: Option<u32>)
    ensures
        queued(*final(heap)) == queued(*old(heap)).insert(job, priority),
        previous == (if queued(*old(heap)).dom().contains(job) {
            Some(queued(*old(heap))[job])
        } else {
            None
        }),
{
    heap.push(job, priority)
}

/// `PriorityQueue::pop`: removes and returns an item of greatest priority, or
/// `None` when the queue is empty. Which of several items of equal greatest
/// priority leaves is left open by the crate (it depends on the heap's layout).
#[verifier::external_body]
fn pq_pop(heap: &mut JobHeap) -> (top: Option<(JobKey, u32)>)
    ensures
        top is None <==> queued(*old(heap)).dom() == Set::<JobKey>::empty(),
        top is None ==> queued(*final(heap)) == queued(*old(heap)),
        top matches Some(entry) ==> {
            &&& queued(*old(heap)).dom().contains(entry.0)
            &&& queued(*old(heap))[entry.0] == entry.1
            &&& queued(*final(heap)) == queued(*old(heap)).remove(entry.0)
            &&& forall|other: JobKey| #[trigger] queued(*old(heap)).dom().contains(other)
                ==> queued(*old(heap))[other] <= entry.1
        },
{
    heap.pop()
}

/// What the server's worker does next.
#[derive(Clone, Copy, Debug, PartialEq, Eq, Structural)]
pub enum ServerAction {
    /// Nothing is queued: wait and look again.
    Idle,
    /// Run `job` for the client, taken from the queue with `priority`.
    Run { client_id: u128, priority: u32, job: Job },
    /// The client's request names an algorithm or size the server does not offer.
    Reject { client_id: u128, algorithm: i32 },
}

/// A job taken from the queue.
#[derive(Clone, Copy, Debug, PartialEq, Eq, Structural)]
pub struct QueuedJob {
    pub client_id: u128,
    pub algorithm: i32,
    pub size: i32,
    pub priority: u32,
}

/// The server's queue of reconstruction requests. A request for a small image
/// (side 30) is always served before any other.
pub struct RequestQueue {
    heap: JobHeap,
}

impl RequestQueue {
    /// The requests waiting in the queue.
    pub closed spec fn pending(&self) -> Set<JobKey> {
        queued(self.heap).dom()
    }

    /// Every queued request carries the priority its image size calls for.
    pub closed spec fn wf(&self) -> bool {
        &&& queued(self.heap).dom().finite()
        &&& forall|job: JobKey| #[trigger] queued(self.heap).dom().contains(job)
            ==> queued(self.heap)[job] == priority_for(job.2)
    }

    /// An empty queue.
    pub fn new() -> (q: RequestQueue)
        ensures
            q.wf(),
            q.pending().finite(),
            q.pending() == Set::<JobKey>::empty(),
    {
        RequestQueue { heap: pq_new() }
    }

    /// Queues the request of client `client_id` for `algorithm` on an image of side
    /// `size`, under the priority that size calls for, which is returned.
    pub fn enqueue(&mut self, client_id: u128, algorithm: i32, size: i32) -> (priority: u32)
        requires
            old(self).wf(),
        ensures
            final(self).wf(),
            final(self).pending().finite(),
            final(self).pending() == old(self).pending().insert((client_id, algorithm, size)),
            priority == priority_for(size),
    {
        let priority = request_priority(size);
        let _ = pq_push(&mut self.heap, (client_id, algorithm, size), priority);
        priority
    }

    /// Accepts the request of client `client_id`: queues it and returns the message
    /// that tells the client so.
    pub fn accept_request(&mut self, client_id: u128, algorithm: i32, size: i32) -> (notice: Vec<u8>)
        requires
            old(self).wf(),
        ensures
            final(self).wf(),
            final(self).pending().finite(),
            final(self).pending() == old(self).pending().insert((client_id, algorithm, size)),
            notice@ == spec_frame(spec_text_bytes(spec_queued_notice()), MESSAGE_SIZE as nat),
    {
        let _ = self.enqueue(client_id, algorithm, size);
        queued_notice_message()
    }

    /// The worker's next step: take the next request to serve (see `next_job`)
    /// and run the job it asks for, or reject it when the server offers no such
    /// job; idle when nothing is queued.
    pub fn next_action(&mut self) -> (action: ServerAction)
        requires
            old(self).wf(),
        ensures
            final(self).wf(),
            final(self).pending().finite(),
            action is Idle <==> old(self).pending() == Set::<JobKey>::empty(),
            !(action is Idle) ==> final(self).pending().len() == old(self).pending().len() - 1,
            action is Idle ==> final(self).pending() == old(self).pending(),
            !(action is Idle) ==> exists|key: JobKey| {
                &&& #[trigger] old(self).pending().contains(key)
                &&& final(self).pending() == old(self).pending().remove(key)
                &&& forall|other: JobKey| #[trigger] old(self).pending().contains(other)
                    ==> priority_for(other.2) <= priority_for(key.2)
                &&& match action {
                    ServerAction::Run { client_id, priority, job } => client_id == key.0
                        && priority == priority_for(key.2)
                        && spec_select_job(key.1, key.2) == Some(job),
                    ServerAction::Reject { client_id, algorithm } => client_id == key.0
                        && algorithm == key.1 && spec_select_job(key.1, key.2) is None,
                    ServerAction::Idle => false,
                }
            },
    {
        match self.next_job() {
            None => ServerAction::Idle,
            Some(queued) => {
                let ghost key = (queued.client_id, queued.algorithm, queued.size);
                match select_job(queued.algorithm, queued.size) {
                    Some(job) => {
                        let action = ServerAction::Run { client_id: queued.client_id, priority: queued.priority, job };
                        assert(old(self).pending().contains(key));
                        action
                    },
                    None => {
                        let action = ServerAction::Reject { client_id: queued.client_id, algorithm: queued.algorithm };
                        assert(old(self).pending().contains(key));
                        action
                    },
                }
            },
        }
    }

    /// Takes the next request to serve: one whose priority no other pending request
    /// exceeds, so a small-image request whenever one is pending. `None` when
    /// nothing is pending.
    pub fn next_job(&mut self) -> (next: Option<QueuedJob>)
        requires
            old(self).wf(),
        ensures
            final(self).wf(),
            final(self).pending().finite(),
            next is None <==> old(self).pending() == Set::<JobKey>::empty(),
            next is None ==> final(self).pending() == old(self).pending(),
            next matches Some(job) ==> taken_from(
                old(self).pending(),
                (job.client_id, job.algorithm, job.size),
                final(self).pending(),
            ),
            next is Some ==> final(self).pending().len() == old(self).pending().len() - 1,
            next matches Some(job) ==> {
                let key = (job.client_id, job.algorithm, job.size);
                &&& old(self).pending().contains(key)
                &&& final(self).pending() == old(self).pending().remove(key)
                &&& job.priority == priority_for(job.size)
                &&& forall|other: JobKey| #[trigger] old(self).pending().contains(other)
                    ==> priority_for(other.2) <= job.priority
                &&& (exists|other: JobKey| #[trigger] old(self).pending().contains(other)
                    && other.2 == 30) ==> job.size == 30
            },
    {
        match pq_pop(&mut self.heap) {
            None => None,
            Some((key, priority)) => {
                assert forall|other: JobKey| #[trigger] queued(self.heap).dom().contains(other)
                    implies queued(self.heap)[other] == priority_for(other.2) by {
                    assert(queued(old(self).heap).dom().contains(other));
                }
                Some(QueuedJob { client_id: key.0, algorithm: key.1, size: key.2, priority })
            },
        }
    }
}

/// `key` is taken from the pending requests `before`, leaving `after`: it was
/// pending, no pending request has a greater priority, and only it has gone.
pub open spec fn taken_from(before: Set<JobKey>, key: JobKey, after: Set<JobKey>) -> bool {
    &&& before.contains(key)
    &&& after == before.remove(key)
    &&& forall|other: JobKey| #[trigger] before.contains(other)
        ==> priority_for(other.2) <= priority_for(key.2)
}

/// While nothing more is queued, taking requests one after another (as
/// `next_job` and `next_action` do) takes each pending request exactly once, in
/// order of non-increasing priority: after `n` takes, `n` requests have gone, all
/// distinct and all of them pending at the start; every request that has gone
/// was taken; and once as many were taken as were pending, the queue is empty.
/// `states[i]` is the pending set before take `i`, which takes `keys[i]`.
pub proof fn draining_takes_each_once(states: Seq<Set<JobKey>>, keys: Seq<JobKey>)
    requires
        states.len() == keys.len() + 1,
        states[0].finite(),
        forall|i: int| 0 <= i < keys.len() ==> #[trigger] taken_from(states[i], keys[i], states[i + 1]),
    ensures
        keys.len() <= states[0].len(),
        forall|i: int| 0 <= i <= keys.len() ==> (#[trigger] states[i]).finite()
            && states[i].len() == states[0].len() - i,
        forall|i: int, j: int| 0 <= i <= j <= keys.len() ==> (#[trigger] states[j]).subset_of(#[trigger] states[i]),
        forall|i: int, j: int| 0 <= i < keys.len() && i < j <= keys.len()
            ==> !(#[trigger] states[j]).contains(#[trigger] keys[i]),
        forall|i: int, j: int| 0 <= i < j < keys.len() ==> #[trigger] keys[i] != #[trigger] keys[j],
        forall|i: int| 0 <= i < keys.len() ==> states[0].contains(#[trigger] keys[i]),
        forall|k: JobKey| #[trigger] states[0].contains(k) && !states[keys.len() as int].contains(k)
            ==> exists|i: int| 0 <= i < keys.len() && #[trigger] keys[i] == k,
        forall|i: int, j: int| 0 <= i < j < keys.len()
            ==> priority_for((#[trigger] keys[j]).2) <= priority_for((#[trigger] keys[i]).2),
        keys.len() == states[0].len() ==> states[keys.len() as int] == Set::<JobKey>::empty(),
    decreases keys.len(),
{
    let n = keys.len() as int;
    if n == 0 {
        return;
    }
    let s2 = states.take(n);
    let k2 = keys.take(n - 1);
    assert forall|i: int| 0 <= i < k2.len() implies #[trigger] taken_from(s2[i], k2[i], s2[i + 1]) by {
        assert(taken_from(states[i], keys[i], states[i + 1]));
    }
    draining_takes_each_once(s2, k2);
    let last = states[n - 1];
    let key = keys[n - 1];
    assert(taken_from(states[n - 1], keys[n - 1], states[n]));
    assert(s2[n - 1] == last);
    assert(s2[0] == states[0]);
    assert(last.finite() && last.len() == states[0].len() - (n - 1));
    assert(last.contains(key));
    assert(states[n].len() == last.len() - 1);
    assert forall|i: int| 0 <= i <= n implies (#[trigger] states[i]).finite()
        && states[i].len() == states[0].len() - i by {
        if i < n {
            assert(s2[i] == states[i]);
        }
    }
    assert forall|i: int, j: int| 0 <= i <= j <= n implies (#[trigger] states[j]).subset_of(#[trigger] states[i]) by {
        if j < n {
            assert(s2[i] == states[i] && s2[j] == states[j]);
            assert(s2[j].subset_of(s2[i]));
        } else if i < n {
            assert(s2[i] == states[i]);
            assert(s2[n - 1].subset_of(s2[i]));
            assert(states[n].subset_of(last));
        }
    }
    assert forall|i: int, j: int| 0 <= i < n && i < j <= n
        implies !(#[trigger] states[j]).contains(#[trigger] keys[i]) by {
        if i == n - 1 {
            assert(states[j] == states[n]);
        } else if j < n {
            assert(s2[j] == states[j] && k2[i] == keys[i]);
            assert(!s2[j].contains(k2[i]));
        } else {
            assert(s2[n - 1] == last && k2[i] == keys[i]);
            assert(!s2[n - 1].contains(k2[i]));
        }
    }
    assert forall|i: int, j: int| 0 <= i < j < n implies #[trigger] keys[i] != #[trigger] keys[j] by {
        if j == n - 1 {
            assert(k2[i] == keys[i]);
            assert(!s2[n - 1].contains(k2[i]));
        } else {
            assert(k2[i] == keys[i] && k2[j] == keys[j]);
            assert(k2[i] != k2[j]);
        }
    }
    assert forall|i: int| 0 <= i < n implies states[0].contains(#[trigger] keys[i]) by {
        if i == n - 1 {
            assert(s2[n - 1].subset_of(s2[0]));
        } else {
            assert(k2[i] == keys[i]);
            assert(s2[0].contains(k2[i]));
        }
    }
    assert forall|k: JobKey| #[trigger] states[0].contains(k) && !states[n].contains(k)
        implies exists|i: int| 0 <= i < n && #[trigger] keys[i] == k by {
        if k == key {
            assert(keys[n - 1] == k);
        } else if last.contains(k) {
            assert(states[n].contains(k));
        } else {
            assert(s2[0].contains(k) && !s2[n - 1].contains(k));
            let i = choose|i: int| 0 <= i < n - 1 && #[trigger] k2[i] == k;
            assert(keys[i] == k2[i]);
        }
    }
    assert forall|i: int, j: int| 0 <= i < j < n
        implies priority_for((#[trigger] keys[j]).2) <= priority_for((#[trigger] keys[i]).2) by {
        if j == n - 1 {
            assert(taken_from(states[i], keys[i], states[i + 1]));
            assert(s2[n - 1].subset_of(s2[i]));
            assert(s2[i] == states[i]);
            assert(states[i].contains(keys[j]));
        } else {
            assert(k2[i] == keys[i] && k2[j] == keys[j]);
            assert(priority_for(k2[j].2) <= priority_for(k2[i].2));
        }
    }
    if n == states[0].len() {
        assert(states[n].len() == 0);
        vstd::set_lib::lemma_set_empty_equivalency_len(states[n]);
    }
}

/// Requests for small images come first: if the job chosen from the pending set
/// has a priority no other pending job exceeds, and some pending job is for a
/// small image, then the chosen job is for a small image.
pub proof fn small_images_served_first(pending: Set<JobKey>, chosen: JobKey)
    requires
        pending.contains(chosen),
        forall|other: JobKey| #[trigger] pending.contains(other)
            ==> priority_for(other.2) <= priority_for(chosen.2),
        exists|other: JobKey| #[trigger] pending.contains(other) && other.2 == 30,
    ensures
        chosen.2 == 30,
{
    let other = choose|other: JobKey| #[trigger] pending.contains(other) && other.2 == 30;
    assert(priority_for(other.2) <= priority_for(chosen.2));
}

} // verus!
