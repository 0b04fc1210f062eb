use vstd::prelude::*;

use std::collections::VecDeque;

use crate::canvas::{Canvas, PIN_COUNT};

verus! {

/// Lifecycle of one print job.
#[derive(Clone, Copy, PartialEq, Eq, Structural, Debug)]
pub enum PrintJobStatus {
    Pending,
    Printing,
    Complete,
    Failed,
}

/// One logical print request. The payload is present while the job waits,
/// moves out when dispatch begins, and is absent in terminal records so the
/// history stays small.
pub struct PrintJob {
    pub id: u32,
    pub timestamp: u64,
    pub quantity: u32,
    pub data: Option<Canvas>,
    pub status: PrintJobStatus,
}

/// The payload-free part of a job: what status queries report.
#[derive(Clone, Copy, PartialEq, Eq, Structural, Debug)]
pub struct JobMeta {
    pub id: u32,
    pub timestamp: u64,
    pub quantity: u32,
    pub status: PrintJobStatus,
}

/// The metadata of a job.
pub open spec fn meta_of(j: PrintJob) -> JobMeta {
    JobMeta { id: j.id, timestamp: j.timestamp, quantity: j.quantity, status: j.status }
}

/// A submission payload before rendering: an already-rasterisable image, or
/// text still to be laid out.
pub enum PrintData {
    Image(Canvas),
    Text(String),
}

/// The queue: a FIFO pending partition, an append-only terminal partition,
/// and the id counter. Ids start at 1 and are never reused. The submitting
/// side and the single dispatcher share one queue behind one lock; each
/// operation below is one critical section, so readers never observe a torn
/// state.
pub struct PrintQueue {
    pub jobs_todo: VecDeque<PrintJob>,
    pub jobs_other: VecDeque<PrintJob>,
    pub counter: u32,
}

impl PrintQueue {
    /// The pending partition, head first.
    pub open spec fn pending(self) -> Seq<PrintJob> {
        self.jobs_todo@
    }

    /// The terminal partition, oldest record first.
    pub open spec fn terminal(self) -> Seq<PrintJob> {
        self.jobs_other@
    }

    /// Some pending job carries this id.
    pub open spec fn pending_has(self, id: u32) -> bool {
        exists|i: int| 0 <= i < self.pending().len() && (#[trigger] self.pending()[i]).id == id
    }

    /// Some terminal record carries this id.
    pub open spec fn terminal_has(self, id: u32) -> bool {
        exists|i: int| 0 <= i < self.terminal().len() && (#[trigger] self.terminal()[i]).id == id
    }

    /// The id is visible somewhere in the queue.
    pub open spec fn has_id(self, id: u32) -> bool {
        self.pending_has(id) || self.terminal_has(id)
    }

    /// Queue invariant: pending jobs are pending, own a payload of exact head
    /// height, and their ids grow strictly from head to tail; terminal records
    /// are payload-free, terminal, and unique by id; no id is in both
    /// partitions; all ids lie in `1..=counter`.
    pub open spec fn wf(self) -> bool {
        &&& (forall|i: int|
            0 <= i < self.pending().len() ==> {
                let j = #[trigger] self.pending()[i];
                &&& j.status is Pending
                &&& j.quantity >= 1
                &&& 1 <= j.id <= self.counter
                &&& j.data matches Some(c) && c@.wf() && c@.height == PIN_COUNT
            })
        &&& (forall|i: int, k: int|
            0 <= i < k < self.pending().len() ==> (#[trigger] self.pending()[i]).id < (
            #[trigger] self.pending()[k]).id)
        &&& (forall|i: int|
            0 <= i < self.terminal().len() ==> {
                let j = #[trigger] self.terminal()[i];
                &&& (j.status is Complete || j.status is Failed)
                &&& j.data is None
                &&& 1 <= j.id <= self.counter
            })
        &&& (forall|i: int, k: int|
            0 <= i < k < self.terminal().len() ==> (#[trigger] self.terminal()[i]).id != (
            #[trigger] self.terminal()[k]).id)
        &&& (forall|i: int, k: int|
            0 <= i < self.pending().len() && 0 <= k < self.terminal().len() ==> (
            #[trigger] self.pending()[i]).id != (#[trigger] self.terminal()[k]).id)
    }

    /// An empty queue with the id counter at zero.
    pub fn new() -> (q: PrintQueue)
        ensures
            q.wf(),
            q.pending() == Seq::<PrintJob>::empty(),
            q.terminal() == Seq::<PrintJob>::empty(),
            q.counter == 0,
    {
        PrintQueue { jobs_todo: VecDeque::new(), jobs_other: VecDeque::new(), counter: 0 }
    }

    /// Submit a job: the next id (one above the last) is assigned, and the job
    /// joins the tail of the pending partition with its payload and the given
    /// timestamp. The returned id is fresh: no job in either partition carried
    /// it before, and it exceeds every id the queue ever handed out.
    pub fn add_job(&mut self, timestamp: u64, data: Canvas, quantity: u32) -> (id: u32)
        requires
            old(self).wf(),
            old(self).counter < u32::MAX,
            quantity >= 1,
            data@.wf(),
            data@.height == PIN_COUNT,
        ensures
            final(self).wf(),
            id == old(self).counter + 1,
            final(self).counter == id,
            !old(self).has_id(id),
            final(self).pending() == old(self).pending().push(
                PrintJob {
                    id,
                    timestamp,
                    quantity,
                    data: Some(data),
                    status: PrintJobStatus::Pending,
                },
            ),
            final(self).terminal() == old(self).terminal(),
    {
        let id: u32 = self.counter + 1;
        self.counter = id;
        let job = PrintJob {
            id,
            timestamp,
            quantity,
            data: Some(data),
            status: PrintJobStatus::Pending,
        };
        self.jobs_todo.push_back(job);
        id
    }

    /// Remove and return the head of the pending partition, if any. The popped
    /// job is no longer visible anywhere in the queue, and what remains keeps
    /// its order.
    pub fn dequeue_next(&mut self) -> (r: Option<PrintJob>)
        requires
            old(self).wf(),
        ensures
            final(self).wf(),
            final(self).counter == old(self).counter,
            final(self).terminal() == old(self).terminal(),
            old(self).pending().len() == 0 ==> r is None && final(self).pending() == old(
                self,
            ).pending(),
            old(self).pending().len() > 0 ==> r == Some(old(self).pending()[0])
                && final(self).pending() == old(self).pending().drop_first(),
            r matches Some(j) ==> {
                &&& !final(self).has_id(j.id)
                &&& 1 <= j.id <= final(self).counter
                &&& j.status is Pending
                &&& j.quantity >= 1
                &&& j.data matches Some(c) && c@.wf() && c@.height == PIN_COUNT
            },
    {
        let r = self.jobs_todo.pop_front();
        proof {
            if old(self).pending().len() > 0 {
                assert(self.pending() == old(self).pending().drop_first());
                assert forall|i: int| 0 <= i < self.pending().len() implies (
                #[trigger] self.pending()[i]).id != old(self).pending()[0].id by {
                    assert(self.pending()[i] == old(self).pending()[i + 1]);
                }
            }
        }
        r
    }

    /// Append a terminal record for a finished job: same id, the given
    /// recorded quantity, no payload. The caller hands in an id that is no
    /// longer visible in either partition, so records stay unique and the two
    /// partitions stay disjoint.
    pub fn record_terminal(
        &mut self,
        job_id: u32,
        timestamp: u64,
        quantity: u32,
        status: PrintJobStatus,
    )
        requires
            old(self).wf(),
            status is Complete || status is Failed,
            1 <= job_id <= old(self).counter,
            !old(self).has_id(job_id),
        ensures
            final(self).wf(),
            final(self).counter == old(self).counter,
            final(self).pending() == old(self).pending(),
            final(self).terminal() == old(self).terminal().push(
                PrintJob { id: job_id, timestamp, quantity, data: None, status },
            ),
    {
        let rec = PrintJob { id: job_id, timestamp, quantity, data: None, status };
        self.jobs_other.push_back(rec);
    }

    /// Read-only view of the pending partition, head first, as metadata.
    pub fn snapshot_pending(&self) -> (r: Vec<JobMeta>)
        ensures
            r@.len() == self.pending().len(),
            forall|i: int|
                0 <= i < r@.len() ==> (#[trigger] r@[i]) == meta_of(self.pending()[i]),
    {
        let n: usize = self.jobs_todo.len();
        let mut out: Vec<JobMeta> = Vec::new();
        let mut i: usize = 0;
        while i < n
            invariant
                n == self.pending().len(),
                i <= n,
                out@.len() == i,
                forall|k: int| 0 <= k < i ==> (#[trigger] out@[k]) == meta_of(self.pending()[k]),
            decreases n - i,
        {
            let j = &self.jobs_todo[i];
            out.push(
                JobMeta { id: j.id, timestamp: j.timestamp, quantity: j.quantity, status: j.status },
            );
            i = i + 1;
        }
        out
    }

    /// Read-only view of the terminal partition, oldest first, as metadata.
    pub fn snapshot_terminal(&self) -> (r: Vec<JobMeta>)
        ensures
            r@.len() == self.terminal().len(),
            forall|i: int|
                0 <= i < r@.len() ==> (#[trigger] r@[i]) == meta_of(self.terminal()[i]),
    {
        let n: usize = self.jobs_other.len();
        let mut out: Vec<JobMeta> = Vec::new();
        let mut i: usize = 0;
        while i < n
            invariant
                n == self.terminal().len(),
                i <= n,
                out@.len() == i,
                forall|k: int| 0 <= k < i ==> (#[trigger] out@[k]) == meta_of(self.terminal()[k]),
            decreases n - i,
        {
            let j = &self.jobs_other[i];
            out.push(
                JobMeta { id: j.id, timestamp: j.timestamp, quantity: j.quantity, status: j.status },
            );
            i = i + 1;
        }
        out
    }

    /// Number of jobs waiting: what admission control reads.
    pub fn queue_depth(&self) -> (n: usize)
        ensures
            n == self.pending().len(),
    {
        self.jobs_todo.len()
    }

    /// Find a job by id, searching the pending partition first, and report its
    /// metadata. Succeeds exactly when the id is visible in the queue.
    pub fn lookup(&self, id: u32) -> (r: Option<JobMeta>)
        requires
            self.wf(),
        ensures
            r is Some <==> self.has_id(id),
            r matches Some(m) ==> m.id == id && ((exists|i: int|
                0 <= i < self.pending().len() && (#[trigger] self.pending()[i]).id == id && m
                    == meta_of(self.pending()[i])) || (exists|i: int|
                0 <= i < self.terminal().len() && (#[trigger] self.terminal()[i]).id == id && m
                    == meta_of(self.terminal()[i]))),
    {
        let n_todo: usize = self.jobs_todo.len();
        let mut i: usize = 0;
        while i < n_todo
            invariant
                self.wf(),
                n_todo == self.pending().len(),
                i <= n_todo,
                forall|k: int| 0 <= k < i ==> (#[trigger] self.pending()[k]).id != id,
            decreases n_todo - i,
        {
            let j = &self.jobs_todo[i];
            if j.id == id {
                return Some(
                    JobMeta {
                        id: j.id,
                        timestamp: j.timestamp,
                        quantity: j.quantity,
                        status: j.status,
                    },
                );
            }
            i = i + 1;
        }
        let n_other: usize = self.jobs_other.len();
        let mut k: usize = 0;
        while k < n_other
            invariant
                self.wf(),
                n_other == self.terminal().len(),
                k <= n_other,
                forall|t: int| 0 <= t < self.pending().len() ==> (#[trigger] self.pending()[t]).id
                    != id,
                forall|t: int| 0 <= t < k ==> (#[trigger] self.terminal()[t]).id != id,
            decreases n_other - k,
        {
            let j = &self.jobs_other[k];
            if j.id == id {
                return Some(
                    JobMeta {
                        id: j.id,
                        timestamp: j.timestamp,
                        quantity: j.quantity,
                        status: j.status,
                    },
                );
            }
            k = k + 1;
        }
        None
    }
}

/// Submission law, over any run of submissions (other queue operations may
/// interleave; none of them moves the id counter). `counters[k]` is the
/// counter the k-th submission found and `ids[k]` the id it returned: one
/// above that counter, where the counter then stays until it only ever grows.
/// The returned ids are strictly increasing in submission order — so never
/// reused — and a run on a fresh queue starts at id 1.
pub proof fn lemma_enqueue_ids_strictly_increase(counters: Seq<int>, ids: Seq<int>)
    requires
        ids.len() == counters.len(),
        forall|k: int| 0 <= k < ids.len() ==> #[trigger] ids[k] == counters[k] + 1,
        forall|j: int, k: int|
            0 <= j < k < counters.len() ==> #[trigger] counters[k] >= #[trigger] ids[j],
    ensures
        forall|j: int, k: int| 0 <= j < k < ids.len() ==> #[trigger] ids[j] < #[trigger] ids[k],
        counters.len() > 0 && counters[0] == 0 ==> ids[0] == 1,
{
}

/// Visibility law: in a well-formed queue no id is visible in both the
/// pending and the terminal partition at once.
pub proof fn lemma_partitions_disjoint(q: PrintQueue, id: u32)
    requires
        q.wf(),
    ensures
        !(q.pending_has(id) && q.terminal_has(id)),
{
}

/// Uniqueness law: in a well-formed queue an id occurs at most once in the
/// pending partition and at most once in the terminal partition.
pub proof fn lemma_ids_unique(q: PrintQueue, id: u32)
    requires
        q.wf(),
    ensures
        forall|i: int, k: int|
            0 <= i < k < q.pending().len() ==> !((#[trigger] q.pending()[i]).id == id && (
            #[trigger] q.pending()[k]).id == id),
        forall|i: int, k: int|
            0 <= i < k < q.terminal().len() ==> !((#[trigger] q.terminal()[i]).id == id && (
            #[trigger] q.terminal()[k]).id == id),
{
}

} // verus!
