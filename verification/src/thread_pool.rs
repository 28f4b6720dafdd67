use vstd::prelude::*;
use std::collections::VecDeque;

verus! {

/// Number of workers used when the machine's parallelism cannot be determined.
pub const DEFAULT_POOL_CAPACITY: usize = 4;

/// The worker count to use: the machine's available parallelism when it is
/// known, otherwise [`DEFAULT_POOL_CAPACITY`].
pub fn capacity_or_default(parallelism: Option<usize>) -> (n: usize)
    ensures
        n == match parallelism {
            Some(p) => p,
            None => DEFAULT_POOL_CAPACITY,
        },
{
    match parallelism {
        Some(p) => p,
        None => DEFAULT_POOL_CAPACITY,
    }
}

/// Round-robin choice of the worker that receives the next task.
///
/// The counter wraps around like the atomic counter it models.
pub struct RoundRobin {
    next: usize,
    workers: usize,
}

impl RoundRobin {
    pub closed spec fn counter(&self) -> usize {
        self.next
    }

    pub closed spec fn worker_count(&self) -> usize {
        self.workers
    }

    /// A dispatcher over `workers` workers whose first choice is worker 0.
    pub fn new(workers: usize) -> (r: Self)
        ensures
            r.counter() == 0,
            r.worker_count() == workers,
    {
        RoundRobin { next: 0, workers }
    }

    /// The number of workers tasks are spread over.
    pub fn workers_len(&self) -> (n: usize)
        ensures
            n == self.worker_count(),
    {
        self.workers
    }

    /// The index of the worker that receives the next task: the counter
    /// modulo the number of workers. The counter then advances by one.
    pub fn next_worker(&mut self) -> (index: usize)
        requires
            old(self).worker_count() > 0,
        ensures
            index == old(self).counter() % old(self).worker_count(),
            index < old(self).worker_count(),
            final(self).worker_count() == old(self).worker_count(),
            final(self).counter() == vstd::wrapping::usize_specs::wrapping_add(old(self).counter(), 1),
    {
        let index = self.next % self.workers;
        self.next = self.next.wrapping_add(1);
        index
    }
}

/// Worker `(start + k) % n` receives the `k`-th of `n` consecutive tasks:
/// `n` consecutive tasks go to `n` distinct workers.
pub proof fn law_round_robin_spreads_tasks(start: int, n: int, i: int, j: int)
    requires
        n > 0,
        start >= 0,
        0 <= i < j < n,
    ensures
        (start + i) % n != (start + j) % n,
{
    vstd::arithmetic::div_mod::lemma_mod_equivalence(start + j, start + i, n);
    vstd::arithmetic::div_mod::lemma_small_mod((j - i) as nat, n as nat);
    assert((start + j) - (start + i) == j - i);
}

/// Priority of a task submitted to the compute pool.
#[derive(Debug, Clone, Copy, PartialEq, Eq, PartialOrd, Ord, Structural)]
pub enum TaskPriority {
    Low,
    Normal,
    High,
    Critical,
}

impl TaskPriority {
    /// Numeric level of the priority: higher levels run first.
    pub open spec fn rank(self) -> int {
        match self {
            TaskPriority::Low => 0,
            TaskPriority::Normal => 1,
            TaskPriority::High => 2,
            TaskPriority::Critical => 3,
        }
    }

    /// Numeric level of the priority (`Low` = 0 up to `Critical` = 3).
    pub fn level(&self) -> (l: u8)
        ensures
            l == self.rank(),
    {
        match self {
            TaskPriority::Low => 0,
            TaskPriority::Normal => 1,
            TaskPriority::High => 2,
            TaskPriority::Critical => 3,
        }
    }
}

/// Tasks submitted without a priority run with `Normal` priority.
impl Default for TaskPriority {
    fn default() -> (p: Self)
        ensures
            p == TaskPriority::Normal,
    {
        TaskPriority::Normal
    }
}

/// Counters describing the activity of a compute pool.
///
/// The task counters and the execution time wrap around at `u64::MAX`, as
/// the atomic counters they model do.
#[derive(Debug, Clone, Copy)]
pub struct ComputePoolMetrics {
    pub tasks_submitted: u64,
    pub tasks_completed: u64,
    pub tasks_failed: u64,
    pub active_workers: usize,
    pub queue_depth_low: usize,
    pub queue_depth_normal: usize,
    pub queue_depth_high: usize,
    pub queue_depth_critical: usize,
    pub total_execution_time_ns: u64,
}

impl ComputePoolMetrics {
    pub open spec fn all_zero(self) -> bool {
        &&& self.tasks_submitted == 0
        &&& self.tasks_completed == 0
        &&& self.tasks_failed == 0
        &&& self.active_workers == 0
        &&& self.queue_depth_low == 0
        &&& self.queue_depth_normal == 0
        &&& self.queue_depth_high == 0
        &&& self.queue_depth_critical == 0
        &&& self.total_execution_time_ns == 0
    }

    /// The queue depth recorded for priority `p`.
    pub open spec fn depth_of(self, p: TaskPriority) -> usize {
        match p {
            TaskPriority::Low => self.queue_depth_low,
            TaskPriority::Normal => self.queue_depth_normal,
            TaskPriority::High => self.queue_depth_high,
            TaskPriority::Critical => self.queue_depth_critical,
        }
    }

    pub fn tasks_submitted(&self) -> (n: u64)
        ensures
            n == self.tasks_submitted,
    {
        self.tasks_submitted
    }

    pub fn tasks_completed(&self) -> (n: u64)
        ensures
            n == self.tasks_completed,
    {
        self.tasks_completed
    }

    pub fn tasks_failed(&self) -> (n: u64)
        ensures
            n == self.tasks_failed,
    {
        self.tasks_failed
    }

    pub fn active_workers(&self) -> (n: usize)
        ensures
            n == self.active_workers,
    {
        self.active_workers
    }

    pub fn queue_depth_low(&self) -> (n: usize)
        ensures
            n == self.queue_depth_low,
    {
        self.queue_depth_low
    }

    pub fn queue_depth_normal(&self) -> (n: usize)
        ensures
            n == self.queue_depth_normal,
    {
        self.queue_depth_normal
    }

    pub fn queue_depth_high(&self) -> (n: usize)
        ensures
            n == self.queue_depth_high,
    {
        self.queue_depth_high
    }

    pub fn queue_depth_critical(&self) -> (n: usize)
        ensures
            n == self.queue_depth_critical,
    {
        self.queue_depth_critical
    }

    pub fn total_execution_time_ns(&self) -> (n: u64)
        ensures
            n == self.total_execution_time_ns,
    {
        self.total_execution_time_ns
    }
}

impl Default for ComputePoolMetrics {
    fn default() -> (m: Self)
        ensures
            m.all_zero(),
    {
        ComputePoolMetrics {
            tasks_submitted: 0,
            tasks_completed: 0,
            tasks_failed: 0,
            active_workers: 0,
            queue_depth_low: 0,
            queue_depth_normal: 0,
            queue_depth_high: 0,
            queue_depth_critical: 0,
            total_execution_time_ns: 0,
        }
    }
}


impl ComputePoolMetrics {
    /// These counters with the queue depth of priority `p` set to `d`.
    pub open spec fn with_depth(self, p: TaskPriority, d: usize) -> Self {
        match p {
            TaskPriority::Low => ComputePoolMetrics { queue_depth_low: d, ..self },
            TaskPriority::Normal => ComputePoolMetrics { queue_depth_normal: d, ..self },
            TaskPriority::High => ComputePoolMetrics { queue_depth_high: d, ..self },
            TaskPriority::Critical => ComputePoolMetrics { queue_depth_critical: d, ..self },
        }
    }
}

/// A task waiting in the compute pool, with its priority and the sequence
/// number it was given when it was submitted.
pub struct PriorityTask<T> {
    pub task: T,
    pub priority: TaskPriority,
    pub sequence: u64,
}

/// Task `a` is run before task `b`: it has a higher priority, or the same
/// priority and an earlier sequence number.
pub open spec fn runs_before<T>(a: PriorityTask<T>, b: PriorityTask<T>) -> bool {
    ||| a.priority.rank() > b.priority.rank()
    ||| (a.priority == b.priority && a.sequence < b.sequence)
}

/// What a compute worker does next.
pub enum WorkerStep<T> {
    /// Nothing is queued and the pool is running: wait for a task.
    Wait,
    /// Nothing is queued and the pool is shutting down: stop.
    Exit,
    /// Run the given task.
    Run(PriorityTask<T>),
}

/// 2^64, where the pool's `u64` counters wrap around.
pub open spec fn counter_modulus() -> nat {
    0x1_0000_0000_0000_0000
}

/// The tasks of one priority lane: all have that priority and sequence
/// numbers below `next`, in increasing order of sequence number.
pub open spec fn lane_ordered<T>(lane: Seq<PriorityTask<T>>, p: TaskPriority, next: u64) -> bool {
    &&& forall|i: int| 0 <= i < lane.len() ==> (#[trigger] lane[i]).priority == p
    &&& forall|i: int| 0 <= i < lane.len() ==> (#[trigger] lane[i]).sequence < next
    &&& forall|i: int, j: int|
        0 <= i < j < lane.len() ==> (#[trigger] lane[i]).sequence < (#[trigger] lane[j]).sequence
}

/// Every task of `s` runs before the tasks that follow it in `s`.
pub open spec fn in_run_order<T>(s: Seq<PriorityTask<T>>) -> bool {
    forall|i: int, j: int| 0 <= i < j < s.len() ==> runs_before(#[trigger] s[i], #[trigger] s[j])
}

proof fn lemma_lane_in_run_order<T>(lane: Seq<PriorityTask<T>>, p: TaskPriority, next: u64)
    requires
        lane_ordered(lane, p, next),
    ensures
        in_run_order(lane),
{
    assert forall|i: int, j: int| 0 <= i < j < lane.len() implies runs_before(
        #[trigger] lane[i],
        #[trigger] lane[j],
    ) by {
        assert(lane[i].priority == p);
        assert(lane[j].priority == p);
    }
}

proof fn lemma_concat_in_run_order<T>(a: Seq<PriorityTask<T>>, b: Seq<PriorityTask<T>>, r: int)
    requires
        in_run_order(a),
        in_run_order(b),
        forall|i: int| 0 <= i < a.len() ==> (#[trigger] a[i]).priority.rank() > r,
        forall|j: int| 0 <= j < b.len() ==> (#[trigger] b[j]).priority.rank() <= r,
    ensures
        in_run_order(a + b),
{
    let s = a + b;
    assert forall|i: int, j: int| 0 <= i < j < s.len() implies runs_before(
        #[trigger] s[i],
        #[trigger] s[j],
    ) by {
        if j < a.len() {
            assert(s[i] == a[i] && s[j] == a[j]);
        } else if i >= a.len() {
            assert(s[i] == b[i - a.len()] && s[j] == b[j - a.len()]);
        } else {
            assert(s[i] == a[i] && s[j] == b[j - a.len()]);
        }
    }
}

/// The first task of a sequence in run order runs before every task that
/// follows it.
proof fn lemma_first_runs_before_rest<T>(s: Seq<PriorityTask<T>>)
    requires
        in_run_order(s),
        s.len() > 0,
    ensures
        forall|i: int|
            0 <= i < s.drop_first().len() ==> runs_before(s[0], #[trigger] s.drop_first()[i]),
{
    assert forall|i: int| 0 <= i < s.drop_first().len() implies runs_before(
        s[0],
        #[trigger] s.drop_first()[i],
    ) by {
        assert(s.drop_first()[i] == s[i + 1]);
    }
}

/// Taking the first element of `a + b`, for a non-empty `a`, takes the
/// first element of `a`.
proof fn lemma_take_first<A>(a: Seq<A>, b: Seq<A>)
    requires
        a.len() > 0,
    ensures
        (a + b)[0] == a[0],
        (a + b).drop_first() == a.drop_first() + b,
{
    assert((a + b).drop_first() =~= a.drop_first() + b);
}

/// Takes the first task of a non-empty lane.
fn pop_lane<T>(lane: &mut VecDeque<PriorityTask<T>>, Ghost(p): Ghost<TaskPriority>, Ghost(next): Ghost<u64>) -> (t: PriorityTask<T>)
    requires
        old(lane)@.len() > 0,
        lane_ordered(old(lane)@, p, next),
    ensures
        t == old(lane)@[0],
        final(lane)@ == old(lane)@.drop_first(),
        lane_ordered(final(lane)@, p, next),
{
    let t = lane.pop_front().unwrap();
    proof {
        assert(lane@ =~= old(lane)@.drop_first());
        assert forall|i: int| 0 <= i < lane@.len() implies (#[trigger] lane@[i]) == old(lane)@[i + 1] by {}
    }
    t
}

/// Adding `k` to a counter that holds `total` modulo 2^64, with wrap-around,
/// gives `total + k` modulo 2^64.
proof fn lemma_wrapping_counter(total: nat, counter: u64, k: u64)
    requires
        counter == total % counter_modulus(),
    ensures
        vstd::wrapping::u64_specs::wrapping_add(counter, k) == ((total + k) as nat) % counter_modulus(),
{
    let m = counter_modulus() as int;
    vstd::arithmetic::div_mod::lemma_add_mod_noop(total as int, k as int, m);
    vstd::arithmetic::div_mod::lemma_small_mod(k as nat, m as nat);
    if counter + k < m {
        vstd::arithmetic::div_mod::lemma_small_mod((counter + k) as nat, m as nat);
    } else {
        vstd::arithmetic::div_mod::lemma_mod_add_multiples_vanish(counter + k - m, m);
        vstd::arithmetic::div_mod::lemma_small_mod((counter + k - m) as nat, m as nat);
    }
}

/// The number of `true` entries of `s`.
pub open spec fn count_true(s: Seq<bool>) -> nat
    decreases s.len(),
{
    if s.len() == 0 {
        0
    } else {
        count_true(s.drop_last()) + if s.last() {
            1nat
        } else {
            0nat
        }
    }
}

proof fn lemma_count_true_bounded(s: Seq<bool>)
    ensures
        count_true(s) <= s.len(),
    decreases s.len(),
{
    if s.len() > 0 {
        lemma_count_true_bounded(s.drop_last());
    }
}

proof fn lemma_count_true_update(s: Seq<bool>, i: int, b: bool)
    requires
        0 <= i < s.len(),
    ensures
        count_true(s.update(i, b)) as int == count_true(s) as int - (if s[i] {
            1int
        } else {
            0int
        }) + (if b {
            1int
        } else {
            0int
        }),
    decreases s.len(),
{
    let u = s.update(i, b);
    if i == s.len() - 1 {
        assert(u.drop_last() =~= s.drop_last());
    } else {
        assert(u.drop_last() =~= s.drop_last().update(i, b));
        lemma_count_true_update(s.drop_last(), i, b);
    }
}

proof fn lemma_count_true_zero(s: Seq<bool>)
    ensures
        count_true(s) == 0 <==> forall|i: int| 0 <= i < s.len() ==> !#[trigger] s[i],
    decreases s.len(),
{
    if s.len() > 0 {
        lemma_count_true_zero(s.drop_last());
        if count_true(s) == 0 {
            assert forall|i: int| 0 <= i < s.len() implies !#[trigger] s[i] by {
                if i < s.len() - 1 {
                    assert(s[i] == s.drop_last()[i]);
                }
            }
        }
        if forall|i: int| 0 <= i < s.len() ==> !#[trigger] s[i] {
            assert(!s[s.len() - 1]);
            assert forall|i: int| 0 <= i < s.drop_last().len() implies !#[trigger] s.drop_last()[i] by {
                assert(s.drop_last()[i] == s[i]);
            }
        }
    }
}

/// The queue of the compute pool, with its counters.
///
/// Tasks run highest priority first, and in submission order within a
/// priority. Workers wait while nothing is queued, and exit only once a
/// shutdown was requested and nothing is queued any more.
pub struct ComputeQueue<T> {
    critical: VecDeque<PriorityTask<T>>,
    high: VecDeque<PriorityTask<T>>,
    normal: VecDeque<PriorityTask<T>>,
    low: VecDeque<PriorityTask<T>>,
    next_sequence: u64,
    shutdown: bool,
    metrics: ComputePoolMetrics,
    busy: Vec<bool>,
    submitted: Ghost<nat>,
    completed: Ghost<nat>,
    failed: Ghost<nat>,
    run_time: Ghost<nat>,
    spawned: Ghost<spec_fn(TaskPriority) -> nat>,
}

impl<T> ComputeQueue<T> {
    /// The queued tasks of priority `p`, in the order they run.
    pub closed spec fn lane(&self, p: TaskPriority) -> Seq<PriorityTask<T>> {
        match p {
            TaskPriority::Low => self.low@,
            TaskPriority::Normal => self.normal@,
            TaskPriority::High => self.high@,
            TaskPriority::Critical => self.critical@,
        }
    }

    /// All queued tasks, in the order they run.
    pub open spec fn pending(&self) -> Seq<PriorityTask<T>> {
        self.lane(TaskPriority::Critical) + self.lane(TaskPriority::High) + self.lane(
            TaskPriority::Normal,
        ) + self.lane(TaskPriority::Low)
    }

    /// The sequence number the next submitted task receives.
    pub closed spec fn next_seq(&self) -> u64 {
        self.next_sequence
    }

    /// A shutdown was requested.
    pub closed spec fn stopping(&self) -> bool {
        self.shutdown
    }

    /// The pool's counters.
    pub closed spec fn counters(&self) -> ComputePoolMetrics {
        self.metrics
    }

    /// The numbers of tasks submitted, completed and failed so far, without
    /// wrap-around.
    pub closed spec fn submitted_total(&self) -> nat {
        self.submitted@
    }

    pub closed spec fn completed_total(&self) -> nat {
        self.completed@
    }

    pub closed spec fn failed_total(&self) -> nat {
        self.failed@
    }

    /// The total execution time reported so far, without wrap-around.
    pub closed spec fn run_time_total(&self) -> nat {
        self.run_time@
    }

    /// The number of tasks submitted with priority `p` so far.
    pub closed spec fn spawned_with(&self, p: TaskPriority) -> nat {
        self.spawned@(p)
    }

    /// For each worker, whether it is running a task.
    pub closed spec fn running(&self) -> Seq<bool> {
        self.busy@
    }

    /// The number of workers taking tasks from the queue.
    pub open spec fn worker_count(&self) -> nat {
        self.running().len()
    }

    /// The queue is well formed: each lane is ordered, the queue depths
    /// match the lanes, every submitted task is queued, running or
    /// finished, the `u64` counters are the totals modulo 2^64, the active
    /// workers are the workers running a task, and no lane holds more tasks
    /// than were submitted with its priority.
    pub open spec fn wf(&self) -> bool {
        &&& self.lanes_wf()
        &&& self.counts_wf()
    }

    /// The lanes are ordered, their depths recorded, and none holds more
    /// tasks than were submitted with its priority.
    pub open spec fn lanes_wf(&self) -> bool {
        &&& lane_ordered(self.lane(TaskPriority::Critical), TaskPriority::Critical, self.next_seq())
        &&& lane_ordered(self.lane(TaskPriority::High), TaskPriority::High, self.next_seq())
        &&& lane_ordered(self.lane(TaskPriority::Normal), TaskPriority::Normal, self.next_seq())
        &&& lane_ordered(self.lane(TaskPriority::Low), TaskPriority::Low, self.next_seq())
        &&& forall|p: TaskPriority| #[trigger] self.counters().depth_of(p) == self.lane(p).len()
        &&& forall|p: TaskPriority| #[trigger] self.lane(p).len() <= self.spawned_with(p)
    }

    /// The counters agree with the totals, the running workers and the
    /// queued tasks.
    pub open spec fn counts_wf(&self) -> bool {
        &&& self.submitted_total() == self.completed_total() + self.failed_total()
            + self.counters().active_workers + self.pending().len()
        &&& self.submitted_total() == self.spawned_with(TaskPriority::Low) + self.spawned_with(
            TaskPriority::Normal,
        ) + self.spawned_with(TaskPriority::High) + self.spawned_with(TaskPriority::Critical)
        &&& self.counters().tasks_submitted == self.submitted_total() % counter_modulus()
        &&& self.counters().tasks_completed == self.completed_total() % counter_modulus()
        &&& self.counters().tasks_failed == self.failed_total() % counter_modulus()
        &&& self.counters().total_execution_time_ns == self.run_time_total() % counter_modulus()
        &&& self.counters().active_workers == count_true(self.running())
    }

    /// An empty queue for `workers` workers, none of them running a task,
    /// with all counters at zero.
    pub fn new(workers: usize) -> (q: Self)
        ensures
            q.wf(),
            q.pending().len() == 0,
            q.next_seq() == 0,
            !q.stopping(),
            q.counters().all_zero(),
            q.worker_count() == workers,
            forall|w: int| 0 <= w < workers ==> !#[trigger] q.running()[w],
            q.submitted_total() == 0,
            q.completed_total() == 0,
            q.failed_total() == 0,
            q.run_time_total() == 0,
            forall|p: TaskPriority| #[trigger] q.spawned_with(p) == 0,
    {
        let mut busy: Vec<bool> = Vec::new();
        let mut i: usize = 0;
        while i < workers
            invariant
                i <= workers,
                busy@.len() == i,
                forall|w: int| 0 <= w < i ==> !#[trigger] busy@[w],
            decreases workers - i,
        {
            busy.push(false);
            i = i + 1;
        }
        proof {
            lemma_count_true_zero(busy@);
        }
        let q = ComputeQueue {
            critical: VecDeque::new(),
            high: VecDeque::new(),
            normal: VecDeque::new(),
            low: VecDeque::new(),
            next_sequence: 0,
            shutdown: false,
            metrics: ComputePoolMetrics::default(),
            busy,
            submitted: Ghost(0),
            completed: Ghost(0),
            failed: Ghost(0),
            run_time: Ghost(0),
            spawned: Ghost(|p: TaskPriority| 0nat),
        };
        assert(q.pending() =~= Seq::empty());
        q
    }

    /// The number of workers taking tasks from the queue.
    pub fn workers_len(&self) -> (n: usize)
        ensures
            n == self.worker_count(),
    {
        self.busy.len()
    }

    /// Whether worker `worker` is running a task.
    pub fn is_running(&self, worker: usize) -> (b: bool)
        requires
            worker < self.worker_count(),
        ensures
            b == self.running()[worker as int],
    {
        self.busy[worker]
    }

    /// The pool's counters.
    pub fn metrics(&self) -> (m: ComputePoolMetrics)
        ensures
            m == self.counters(),
    {
        self.metrics
    }

    /// The sequence number the next submitted task receives.
    pub fn next_sequence(&self) -> (n: u64)
        ensures
            n == self.next_seq(),
    {
        self.next_sequence
    }

    /// Whether no task is queued.
    pub fn is_empty(&self) -> (b: bool)
        ensures
            b == (self.pending().len() == 0),
    {
        self.critical.len() == 0 && self.high.len() == 0 && self.normal.len() == 0
            && self.low.len() == 0
    }

    /// Whether a shutdown was requested.
    pub fn is_shutdown(&self) -> (b: bool)
        ensures
            b == self.stopping(),
    {
        self.shutdown
    }

    /// The queued tasks are in the order they run: by priority, highest
    /// first, and by submission within a priority.
    pub proof fn law_queue_in_run_order(&self)
        requires
            self.wf(),
        ensures
            in_run_order(self.pending()),
    {
        let c = self.lane(TaskPriority::Critical);
        let h = self.lane(TaskPriority::High);
        let n = self.lane(TaskPriority::Normal);
        let l = self.lane(TaskPriority::Low);
        lemma_lane_in_run_order(c, TaskPriority::Critical, self.next_seq());
        lemma_lane_in_run_order(h, TaskPriority::High, self.next_seq());
        lemma_lane_in_run_order(n, TaskPriority::Normal, self.next_seq());
        lemma_lane_in_run_order(l, TaskPriority::Low, self.next_seq());
        lemma_concat_in_run_order(n, l, 0);
        assert forall|j: int| 0 <= j < (n + l).len() implies (#[trigger] (n + l)[j]).priority.rank()
            <= 1 by {
            if j < n.len() {
                assert((n + l)[j] == n[j]);
            } else {
                assert((n + l)[j] == l[j - n.len()]);
            }
        }
        lemma_concat_in_run_order(h, n + l, 1);
        assert forall|j: int| 0 <= j < (h + (n + l)).len() implies (#[trigger] (h + (n
            + l))[j]).priority.rank() <= 2 by {
            if j < h.len() {
                assert((h + (n + l))[j] == h[j]);
            } else {
                assert((h + (n + l))[j] == (n + l)[j - h.len()]);
            }
        }
        lemma_concat_in_run_order(c, h + (n + l), 2);
        assert(c + (h + (n + l)) =~= self.pending());
    }

    /// Every submission is counted once: `tasks_submitted` is the number of
    /// tasks submitted so far, of every priority, modulo 2^64. A new queue
    /// starts at zero, each `spawn` adds one and no other operation changes
    /// it, so after `k` submissions it reads `k` (for `k < 2^64`), whether the
    /// tasks have run, finished or failed.
    pub proof fn law_submitted_counts_spawns(&self)
        requires
            self.wf(),
        ensures
            self.submitted_total() == self.spawned_with(TaskPriority::Low) + self.spawned_with(
                TaskPriority::Normal,
            ) + self.spawned_with(TaskPriority::High) + self.spawned_with(TaskPriority::Critical),
            self.counters().tasks_submitted == self.submitted_total() % counter_modulus(),
            self.submitted_total() < counter_modulus() ==> self.counters().tasks_submitted
                == self.submitted_total(),
    {
        if self.submitted_total() < counter_modulus() {
            vstd::arithmetic::div_mod::lemma_small_mod(self.submitted_total(), counter_modulus());
        }
    }

    /// Every submitted task is queued, running, completed or failed: modulo
    /// 2^64, the completed, failed, running and queued tasks add up to the
    /// submitted ones.
    pub proof fn law_every_task_accounted(&self)
        requires
            self.wf(),
        ensures
            ((self.counters().tasks_completed + self.counters().tasks_failed
                + self.counters().active_workers + self.pending().len()) as nat)
                % counter_modulus() == self.counters().tasks_submitted,
    {
        let m = counter_modulus() as int;
        let c = self.completed_total() as int;
        let f = self.failed_total() as int;
        let rest = self.counters().active_workers + self.pending().len();
        vstd::arithmetic::div_mod::lemma_add_mod_noop_right(f + rest, c, m);
        vstd::arithmetic::div_mod::lemma_add_mod_noop_right(c % m + rest, f, m);
        assert((f + rest) + c % m == c % m + rest + f);
        assert((c % m + rest) + f % m == c % m + f % m + rest);
        assert(c + f + rest == (f + rest) + c);
    }

    /// At most one task per worker runs at a time: the active workers are
    /// at most the workers, and none is active exactly when no worker runs
    /// a task.
    pub proof fn law_running_bounded_by_workers(&self)
        requires
            self.wf(),
        ensures
            self.counters().active_workers <= self.worker_count(),
            self.counters().active_workers == 0 <==> forall|w: int|
                0 <= w < self.worker_count() ==> !#[trigger] self.running()[w],
    {
        lemma_count_true_bounded(self.running());
        lemma_count_true_zero(self.running());
    }

    /// Tasks finish at most once each: the completed and failed tasks never
    /// outnumber the submitted ones, and once nothing is queued or running
    /// (as after a shutdown has drained the queue) they add up to them.
    pub proof fn law_finished_at_most_submitted(&self)
        requires
            self.wf(),
        ensures
            self.completed_total() + self.failed_total() <= self.submitted_total(),
            self.pending().len() == 0 && self.counters().active_workers == 0 ==> self.completed_total()
                + self.failed_total() == self.submitted_total(),
    {
    }

    /// A priority's queue depth never exceeds the number of tasks submitted
    /// with it; in particular it stays 0 for a priority never used.
    pub proof fn law_depth_bounded_by_submissions(&self, p: TaskPriority)
        requires
            self.wf(),
        ensures
            self.counters().depth_of(p) <= self.spawned_with(p),
    {
        assert(self.counters().depth_of(p) == self.lane(p).len());
        assert(self.lane(p).len() <= self.spawned_with(p));
    }

    /// Submits a task with the given priority: it joins the end of its
    /// priority's lane with the next sequence number.
    pub fn spawn(&mut self, task: T, priority: TaskPriority)
        requires
            old(self).wf(),
            old(self).next_seq() < u64::MAX,
        ensures
            final(self).wf(),
            final(self).lane(priority) == old(self).lane(priority).push(
                PriorityTask { task, priority, sequence: old(self).next_seq() },
            ),
            forall|p: TaskPriority| p != priority ==> #[trigger] final(self).lane(p) == old(self).lane(p),
            final(self).next_seq() == old(self).next_seq() + 1,
            final(self).stopping() == old(self).stopping(),
            final(self).counters() == (ComputePoolMetrics {
                tasks_submitted: vstd::wrapping::u64_specs::wrapping_add(
                    old(self).counters().tasks_submitted,
                    1,
                ),
                ..old(self).counters()
            }).with_depth(priority, (old(self).counters().depth_of(priority) + 1) as usize),
            final(self).running() == old(self).running(),
            final(self).submitted_total() == old(self).submitted_total() + 1,
            final(self).completed_total() == old(self).completed_total(),
            final(self).failed_total() == old(self).failed_total(),
            final(self).run_time_total() == old(self).run_time_total(),
            final(self).spawned_with(priority) == old(self).spawned_with(priority) + 1,
            forall|p: TaskPriority|
                p != priority ==> #[trigger] final(self).spawned_with(p) == old(self).spawned_with(p),
    {
        let sequence = self.next_sequence;
        let ghost spawned = self.spawned@;
        self.spawned = Ghost(
            |p: TaskPriority|
                if p == priority {
                    spawned(p) + 1
                } else {
                    spawned(p)
                },
        );
        self.next_sequence = self.next_sequence + 1;
        proof {
            lemma_wrapping_counter(self.submitted@, self.metrics.tasks_submitted, 1);
        }
        self.metrics.tasks_submitted = self.metrics.tasks_submitted.wrapping_add(1);
        self.submitted = Ghost(self.submitted@ + 1);
        let t = PriorityTask { task, priority, sequence };
        match priority {
            TaskPriority::Low => {
                self.low.push_back(t);
                self.metrics.queue_depth_low = self.low.len();
            },
            TaskPriority::Normal => {
                self.normal.push_back(t);
                self.metrics.queue_depth_normal = self.normal.len();
            },
            TaskPriority::High => {
                self.high.push_back(t);
                self.metrics.queue_depth_high = self.high.len();
            },
            TaskPriority::Critical => {
                self.critical.push_back(t);
                self.metrics.queue_depth_critical = self.critical.len();
            },
        }
        proof {
            assert(self.pending().len() == old(self).pending().len() + 1);
            assert(lane_ordered(self.lane(TaskPriority::Critical), TaskPriority::Critical, self.next_seq()));
            assert(lane_ordered(self.lane(TaskPriority::High), TaskPriority::High, self.next_seq()));
            assert(lane_ordered(self.lane(TaskPriority::Normal), TaskPriority::Normal, self.next_seq()));
            assert(lane_ordered(self.lane(TaskPriority::Low), TaskPriority::Low, self.next_seq()));
            assert forall|p: TaskPriority| #[trigger] self.counters().depth_of(p) == self.lane(
                p,
            ).len() by {
                assert(old(self).counters().depth_of(p) == old(self).lane(p).len());
            }
            assert forall|p: TaskPriority| #[trigger] self.lane(p).len() <= self.spawned_with(p) by {
                assert(old(self).lane(p).len() <= old(self).spawned_with(p));
            }
        }
    }

    /// What a worker does next: run the first queued task in run order,
    /// wait when nothing is queued, or exit when nothing is queued and a
    /// shutdown was requested. A task handed out counts as running.
    #[verifier::spinoff_prover]
    #[verifier::rlimit(40)]
    pub fn next_step(&mut self, worker: usize) -> (step: WorkerStep<T>)
        requires
            old(self).wf(),
            worker < old(self).worker_count(),
            !old(self).running()[worker as int],
        ensures
            final(self).wf(),
            final(self).next_seq() == old(self).next_seq(),
            final(self).stopping() == old(self).stopping(),
            final(self).submitted_total() == old(self).submitted_total(),
            final(self).completed_total() == old(self).completed_total(),
            final(self).failed_total() == old(self).failed_total(),
            final(self).run_time_total() == old(self).run_time_total(),
            forall|p: TaskPriority| #[trigger] final(self).spawned_with(p) == old(self).spawned_with(p),
            old(self).pending().len() == 0 ==> {
                &&& final(self).pending() == old(self).pending()
                &&& final(self).running() == old(self).running()
                &&& final(self).counters() == old(self).counters()
                &&& if old(self).stopping() {
                    step is Exit
                } else {
                    step is Wait
                }
            },
            old(self).pending().len() > 0 ==> {
                let t = old(self).pending()[0];
                let m = old(self).counters();
                &&& step == WorkerStep::Run(t)
                &&& final(self).running() == old(self).running().update(worker as int, true)
                &&& final(self).pending() == old(self).pending().drop_first()
                &&& final(self).lane(t.priority) == old(self).lane(t.priority).drop_first()
                &&& forall|p: TaskPriority|
                    p != t.priority ==> #[trigger] final(self).lane(p) == old(self).lane(p)
                &&& final(self).counters() == (ComputePoolMetrics {
                    active_workers: (m.active_workers + 1) as usize,
                    ..m
                }).with_depth(t.priority, (m.depth_of(t.priority) - 1) as usize)
            },
            step matches WorkerStep::Run(t) ==> forall|i: int|
                0 <= i < final(self).pending().len() ==> runs_before(
                    t,
                    #[trigger] final(self).pending()[i],
                ),
    {
        proof {
            self.law_queue_in_run_order();
        }
        let t = match self.pop_next() {
            Some(t) => t,
            None => {
                if self.shutdown {
                    return WorkerStep::Exit;
                } else {
                    return WorkerStep::Wait;
                }
            },
        };
        proof {
            lemma_count_true_update(self.busy@, worker as int, true);
            lemma_count_true_bounded(self.busy@.update(worker as int, true));
            assert(self.busy@.len() == self.busy.len());
        }
        self.busy.set(worker, true);
        self.metrics.active_workers = self.metrics.active_workers + 1;
        proof {
            assert forall|p: TaskPriority| #[trigger] self.counters().depth_of(p) == self.lane(
                p,
            ).len() by {
                assert(old(self).counters().depth_of(p) == old(self).lane(p).len());
            }
            lemma_first_runs_before_rest(old(self).pending());
        }
        WorkerStep::Run(t)
    }

    /// Takes the first task of the lane of priority `p`, keeping its depth.
    fn pop_from(&mut self, p: TaskPriority) -> (t: PriorityTask<T>)
        requires
            old(self).lanes_wf(),
            old(self).lane(p).len() > 0,
        ensures
            final(self).lanes_wf(),
            t == old(self).lane(p)[0],
            final(self).lane(p) == old(self).lane(p).drop_first(),
            forall|q: TaskPriority| q != p ==> #[trigger] final(self).lane(q) == old(self).lane(q),
            final(self).counters() == old(self).counters().with_depth(
                p,
                (old(self).counters().depth_of(p) - 1) as usize,
            ),
            final(self).next_seq() == old(self).next_seq(),
            final(self).stopping() == old(self).stopping(),
            final(self).running() == old(self).running(),
            final(self).submitted_total() == old(self).submitted_total(),
            final(self).completed_total() == old(self).completed_total(),
            final(self).failed_total() == old(self).failed_total(),
            final(self).run_time_total() == old(self).run_time_total(),
            forall|q: TaskPriority| #[trigger] final(self).spawned_with(q) == old(self).spawned_with(q),
    {
        let t = match p {
            TaskPriority::Critical => {
                let t = pop_lane(&mut self.critical, Ghost(p), Ghost(self.next_sequence));
                self.metrics.queue_depth_critical = self.critical.len();
                t
            },
            TaskPriority::High => {
                let t = pop_lane(&mut self.high, Ghost(p), Ghost(self.next_sequence));
                self.metrics.queue_depth_high = self.high.len();
                t
            },
            TaskPriority::Normal => {
                let t = pop_lane(&mut self.normal, Ghost(p), Ghost(self.next_sequence));
                self.metrics.queue_depth_normal = self.normal.len();
                t
            },
            TaskPriority::Low => {
                let t = pop_lane(&mut self.low, Ghost(p), Ghost(self.next_sequence));
                self.metrics.queue_depth_low = self.low.len();
                t
            },
        };
        proof {
            assert forall|q: TaskPriority| #[trigger] self.counters().depth_of(q) == self.lane(
                q,
            ).len() by {
                assert(old(self).counters().depth_of(q) == old(self).lane(q).len());
            }
            assert forall|q: TaskPriority| #[trigger] self.lane(q).len() <= self.spawned_with(q) by {
                assert(old(self).lane(q).len() <= old(self).spawned_with(q));
            }
        }
        t
    }

    /// Takes the first queued task in run order, keeping the queue depths.
    #[verifier::spinoff_prover]
    #[verifier::rlimit(60)]
    fn pop_next(&mut self) -> (r: Option<PriorityTask<T>>)
        requires
            old(self).lanes_wf(),
        ensures
            final(self).lanes_wf(),
            final(self).next_seq() == old(self).next_seq(),
            final(self).stopping() == old(self).stopping(),
            final(self).running() == old(self).running(),
            final(self).submitted_total() == old(self).submitted_total(),
            final(self).completed_total() == old(self).completed_total(),
            final(self).failed_total() == old(self).failed_total(),
            final(self).run_time_total() == old(self).run_time_total(),
            forall|p: TaskPriority| #[trigger] final(self).spawned_with(p) == old(self).spawned_with(p),
            old(self).pending().len() == 0 ==> r is None && final(self).pending() == old(self).pending()
                && final(self).counters() == old(self).counters(),
            old(self).pending().len() > 0 ==> {
                let t = old(self).pending()[0];
                let m = old(self).counters();
                &&& r == Some(t)
                &&& final(self).pending() == old(self).pending().drop_first()
                &&& final(self).lane(t.priority) == old(self).lane(t.priority).drop_first()
                &&& forall|p: TaskPriority|
                    p != t.priority ==> #[trigger] final(self).lane(p) == old(self).lane(p)
                &&& final(self).counters() == m.with_depth(
                    t.priority,
                    (m.depth_of(t.priority) - 1) as usize,
                )
            },
    {
        let ghost c = self.critical@;
        let ghost h = self.high@;
        let ghost n = self.normal@;
        let ghost l = self.low@;
        if self.critical.len() > 0 {
            let t = self.pop_from(TaskPriority::Critical);
            proof {
                lemma_take_first(c, h + n + l);
                assert(old(self).pending() =~= c + (h + n + l));
                assert(self.pending() =~= c.drop_first() + (h + n + l));
            }
            Some(t)
        } else if self.high.len() > 0 {
            let t = self.pop_from(TaskPriority::High);
            proof {
                lemma_take_first(h, n + l);
                assert(old(self).pending() =~= h + (n + l));
                assert(self.pending() =~= h.drop_first() + (n + l));
            }
            Some(t)
        } else if self.normal.len() > 0 {
            let t = self.pop_from(TaskPriority::Normal);
            proof {
                lemma_take_first(n, l);
                assert(old(self).pending() =~= n + l);
                assert(self.pending() =~= n.drop_first() + l);
            }
            Some(t)
        } else if self.low.len() > 0 {
            let t = self.pop_from(TaskPriority::Low);
            proof {
                assert(old(self).pending() =~= l);
                assert(self.pending() =~= l.drop_first());
            }
            Some(t)
        } else {
            proof {
                assert(old(self).pending() =~= Seq::empty());
            }
            None
        }
    }

    /// Records the end of a task that a worker ran: it is no longer
    /// running, its duration is added to the execution time, and it counts
    /// as completed or, when it panicked, as failed.
    pub fn finish(&mut self, worker: usize, succeeded: bool, elapsed_ns: u64)
        requires
            old(self).wf(),
            worker < old(self).worker_count(),
            old(self).running()[worker as int],
        ensures
            final(self).wf(),
            final(self).running() == old(self).running().update(worker as int, false),
            final(self).submitted_total() == old(self).submitted_total(),
            final(self).completed_total() == old(self).completed_total() + if succeeded {
                1nat
            } else {
                0nat
            },
            final(self).failed_total() == old(self).failed_total() + if succeeded {
                0nat
            } else {
                1nat
            },
            final(self).run_time_total() == old(self).run_time_total() + elapsed_ns,
            forall|p: TaskPriority| #[trigger] final(self).spawned_with(p) == old(self).spawned_with(p),
            final(self).pending() == old(self).pending(),
            forall|p: TaskPriority| #[trigger] final(self).lane(p) == old(self).lane(p),
            final(self).next_seq() == old(self).next_seq(),
            final(self).stopping() == old(self).stopping(),
            final(self).counters() == (ComputePoolMetrics {
                active_workers: (old(self).counters().active_workers - 1) as usize,
                total_execution_time_ns: vstd::wrapping::u64_specs::wrapping_add(
                    old(self).counters().total_execution_time_ns,
                    elapsed_ns,
                ),
                tasks_completed: if succeeded {
                    vstd::wrapping::u64_specs::wrapping_add(old(self).counters().tasks_completed, 1)
                } else {
                    old(self).counters().tasks_completed
                },
                tasks_failed: if succeeded {
                    old(self).counters().tasks_failed
                } else {
                    vstd::wrapping::u64_specs::wrapping_add(old(self).counters().tasks_failed, 1)
                },
                ..old(self).counters()
            }),
    {
        proof {
            lemma_wrapping_counter(self.run_time@, self.metrics.total_execution_time_ns, elapsed_ns);
            lemma_count_true_update(self.busy@, worker as int, false);
        }
        self.metrics.total_execution_time_ns = self.metrics.total_execution_time_ns.wrapping_add(
            elapsed_ns,
        );
        self.run_time = Ghost((self.run_time@ + elapsed_ns) as nat);
        self.busy.set(worker, false);
        self.metrics.active_workers = self.metrics.active_workers - 1;
        if succeeded {
            proof {
                lemma_wrapping_counter(self.completed@, self.metrics.tasks_completed, 1);
            }
            self.metrics.tasks_completed = self.metrics.tasks_completed.wrapping_add(1);
            self.completed = Ghost(self.completed@ + 1);
        } else {
            proof {
                lemma_wrapping_counter(self.failed@, self.metrics.tasks_failed, 1);
            }
            self.metrics.tasks_failed = self.metrics.tasks_failed.wrapping_add(1);
            self.failed = Ghost(self.failed@ + 1);
        }
        proof {
            assert forall|p: TaskPriority| #[trigger] self.lane(p).len() <= self.spawned_with(p) by {
                assert(old(self).lane(p).len() <= old(self).spawned_with(p));
            }
            assert forall|p: TaskPriority| #[trigger] self.counters().depth_of(p) == self.lane(
                p,
            ).len() by {
                assert(old(self).counters().depth_of(p) == old(self).lane(p).len());
            }
        }
    }

    /// Requests a shutdown: workers finish the queued tasks, then exit.
    pub fn shutdown(&mut self)
        requires
            old(self).wf(),
        ensures
            final(self).wf(),
            final(self).stopping(),
            final(self).pending() == old(self).pending(),
            forall|p: TaskPriority| #[trigger] final(self).lane(p) == old(self).lane(p),
            final(self).next_seq() == old(self).next_seq(),
            final(self).counters() == old(self).counters(),
            final(self).running() == old(self).running(),
            final(self).submitted_total() == old(self).submitted_total(),
            final(self).completed_total() == old(self).completed_total(),
            final(self).failed_total() == old(self).failed_total(),
            final(self).run_time_total() == old(self).run_time_total(),
            forall|p: TaskPriority| #[trigger] final(self).spawned_with(p) == old(self).spawned_with(p),
    {
        self.shutdown = true;
    }
}

} // verus!
