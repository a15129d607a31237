//! Scheduling, block pools and metric histories for keeping the terminal responsive.
//!
//! Instants are nanosecond readings of a monotonic clock and durations are nanoseconds;
//! the caller reads the clock.
use vstd::prelude::*;
use crate::text::str_eq;

verus! {

/// Task priority, from `Background` (lowest) to `Critical` (highest).
#[derive(Debug, Clone, Copy, PartialEq, Eq, Structural)]
pub enum TaskPriority {
    Background,
    Low,
    Normal,
    High,
    Critical,
}

#[derive(Debug, Clone, Copy, PartialEq, Eq, Structural)]
pub enum TaskType {
    RenderFrame,
    ProcessCommand,
    UpdateAI,
    HandleNetwork,
    ProcessPlugin,
    UpdateUI,
    GarbageCollect,
    BackgroundSync,
}

#[derive(Debug, Clone, Copy, PartialEq, Eq, Structural)]
pub enum CommandComplexity {
    /// Basic commands like ls, cd, echo.
    Simple,
    /// Commands with pipes, redirects.
    Medium,
    /// Commands with multiple processes, heavy I/O.
    Complex,
    /// Resource-intensive commands.
    Heavy,
}

#[derive(Debug, Clone, Copy, PartialEq, Eq, Structural)]
pub enum AllocationStrategy {
    FirstFit,
    BestFit,
    WorstFit,
    BuddySystem,
}

#[derive(Debug, Clone)]
pub struct ScheduledTask {
    pub id: String,
    pub priority: TaskPriority,
    pub task_type: TaskType,
    pub created_at: u64,
    pub estimated_duration: u64,
    pub dependencies: Vec<String>,
    pub retry_count: u32,
}

#[derive(Debug, Clone)]
pub struct RunningTask {
    pub id: String,
    pub started_at: u64,
    pub estimated_duration: u64,
    pub worker_id: usize,
}

#[derive(Debug, Clone)]
pub struct CompletedTask {
    pub id: String,
    pub started_at: u64,
    pub completed_at: u64,
    pub actual_duration: u64,
    pub success: bool,
    pub worker_id: usize,
}

#[derive(Debug, Clone)]
pub struct TaskScheduler {
    pub task_queue: Vec<ScheduledTask>,
    pub running_tasks: Vec<RunningTask>,
    pub completed_tasks: Vec<CompletedTask>,
    pub max_concurrent_tasks: usize,
    pub cpu_cores: usize,
}

/// The numeric rank of a priority (`Background` 0 to `Critical` 4).
pub open spec fn rank(p: TaskPriority) -> int {
    match p {
        TaskPriority::Background => 0,
        TaskPriority::Low => 1,
        TaskPriority::Normal => 2,
        TaskPriority::High => 3,
        TaskPriority::Critical => 4,
    }
}

/// The priorities of a queue.
pub open spec fn priorities(q: Seq<ScheduledTask>) -> Seq<TaskPriority> {
    q.map_values(|t: ScheduledTask| t.priority)
}

/// First index at or after `k` whose priority ranks below `p` (or the length).
pub open spec fn first_lower(q: Seq<ScheduledTask>, p: TaskPriority, k: int) -> int
    decreases q.len() - k,
{
    if 0 <= k < q.len() && rank(q[k].priority) >= rank(p) {
        first_lower(q, p, k + 1)
    } else {
        k
    }
}

/// `t` inserted before the first task of lower priority.
pub open spec fn enqueue(q: Seq<ScheduledTask>, t: ScheduledTask) -> Seq<ScheduledTask> {
    let k = first_lower(q, t.priority, 0);
    q.take(k) + seq![t] + q.skip(k)
}

/// Stable sort by descending priority.
pub open spec fn sort_by_priority(q: Seq<ScheduledTask>) -> Seq<ScheduledTask>
    decreases q.len(),
{
    if q.len() == 0 {
        q
    } else {
        enqueue(sort_by_priority(q.drop_last()), q.last())
    }
}

pub open spec fn by_priority(q: Seq<ScheduledTask>) -> bool {
    forall|i: int, j: int| 0 <= i < j < q.len() ==> rank(q[i].priority) >= rank(q[j].priority)
}

pub fn priority_rank(p: TaskPriority) -> (r: u8)
    ensures
        r == rank(p),
{
    match p {
        TaskPriority::Background => 0,
        TaskPriority::Low => 1,
        TaskPriority::Normal => 2,
        TaskPriority::High => 3,
        TaskPriority::Critical => 4,
    }
}

/// Calls `num_cpus::get`: the logical CPUs available to this process, at least one.
#[verifier::external_body]
fn available_cpus() -> (r: usize)
    ensures
        r >= 1,
{
    num_cpus::get()
}

fn queue_insert_pos(q: &Vec<ScheduledTask>, p: TaskPriority) -> (r: usize)
    ensures
        r == first_lower(q@, p, 0),
        r <= q@.len(),
{
    let pr = priority_rank(p);
    let mut k: usize = 0;
    while k < q.len() && priority_rank(q[k].priority) >= pr
        invariant
            0 <= k <= q@.len(),
            pr == rank(p),
            first_lower(q@, p, 0) == first_lower(q@, p, k as int),
        decreases q@.len() - k,
    {
        k = k + 1;
    }
    k
}

impl TaskScheduler {
    /// Four cores, four concurrent tasks, nothing queued.
    pub fn new() -> (r: TaskScheduler)
        ensures
            r.task_queue@.len() == 0,
            r.running_tasks@.len() == 0,
            r.completed_tasks@.len() == 0,
            r.max_concurrent_tasks == 4,
            r.cpu_cores == 4,
    {
        TaskScheduler {
            task_queue: Vec::new(),
            running_tasks: Vec::new(),
            completed_tasks: Vec::new(),
            max_concurrent_tasks: 4,
            cpu_cores: 4,
        }
    }

    /// Sizes the scheduler for `cores` CPUs, allowing twice as many concurrent tasks.
    pub fn configure_for_cores(&mut self, cores: usize)
        ensures
            final(self).cpu_cores == cores,
            final(self).max_concurrent_tasks == (if cores * 2 <= usize::MAX {
                (cores * 2) as usize
            } else {
                usize::MAX
            }),
            final(self).task_queue == old(self).task_queue,
            final(self).running_tasks == old(self).running_tasks,
            final(self).completed_tasks == old(self).completed_tasks,
    {
        self.cpu_cores = cores;
        self.max_concurrent_tasks = if cores <= usize::MAX / 2 {
            cores * 2
        } else {
            usize::MAX
        };
    }

    /// Sizes the scheduler for the CPUs of this host.
    pub fn configure_for_host(&mut self)
        ensures
            final(self).cpu_cores >= 1,
            final(self).max_concurrent_tasks == (if final(self).cpu_cores * 2 <= usize::MAX {
                (final(self).cpu_cores * 2) as usize
            } else {
                usize::MAX
            }),
            final(self).max_concurrent_tasks >= 2,
            final(self).task_queue == old(self).task_queue,
            final(self).running_tasks == old(self).running_tasks,
            final(self).completed_tasks == old(self).completed_tasks,
    {
        let cores = available_cpus();
        self.configure_for_cores(cores);
    }

    /// Queues a task before the first one of lower priority (after those of equal priority).
    pub fn schedule_task(
        &mut self,
        task_id: String,
        priority: TaskPriority,
        task_type: TaskType,
        estimated_duration: u64,
        now: u64,
    )
        ensures
            ({
                let k = first_lower(old(self).task_queue@, priority, 0);
                &&& final(self).task_queue@.len() == old(self).task_queue@.len() + 1
                &&& final(self).task_queue@.take(k) == old(self).task_queue@.take(k)
                &&& final(self).task_queue@.skip(k + 1) == old(self).task_queue@.skip(k)
                &&& final(self).task_queue@[k].id == task_id
                &&& final(self).task_queue@[k].priority == priority
                &&& final(self).task_queue@[k].task_type == task_type
                &&& final(self).task_queue@[k].created_at == now
                &&& final(self).task_queue@[k].estimated_duration == estimated_duration
                &&& final(self).task_queue@[k].dependencies@.len() == 0
                &&& final(self).task_queue@[k].retry_count == 0
            }),
            final(self).running_tasks == old(self).running_tasks,
            final(self).completed_tasks == old(self).completed_tasks,
            final(self).max_concurrent_tasks == old(self).max_concurrent_tasks,
    {
        let task = ScheduledTask {
            id: task_id,
            priority,
            task_type,
            created_at: now,
            estimated_duration,
            dependencies: Vec::new(),
            retry_count: 0,
        };
        let k = queue_insert_pos(&self.task_queue, priority);
        self.task_queue.insert(k, task);
        assert(self.task_queue@.take(k as int) =~= old(self).task_queue@.take(k as int));
        assert(self.task_queue@.skip(k + 1) =~= old(self).task_queue@.skip(k as int));
    }

    /// Moves the first running task with this id to the completed ones (started
    /// `actual_duration` before `now`), keeping at most a thousand completed tasks by dropping
    /// the oldest five hundred; an unknown id changes nothing.
    pub fn complete_task(&mut self, task_id: &str, actual_duration: u64, success: bool, now: u64)
        requires
            actual_duration <= now,
        ensures
            final(self).task_queue == old(self).task_queue,
            (forall|k: int| 0 <= k < old(self).running_tasks@.len() ==> (#[trigger] old(self).running_tasks@[k]).id@ != task_id@) ==> *final(self) == *old(self),
            forall|k: int|
                0 <= k < old(self).running_tasks@.len() && (#[trigger] old(self).running_tasks@[k]).id@ == task_id@
                && (forall|j: int| 0 <= j < k ==> old(self).running_tasks@[j].id@ != task_id@)
                ==> {
                    let done: int = old(self).completed_tasks@.len() as int + 1;
                    &&& final(self).running_tasks@ == old(self).running_tasks@.remove(k)
                    &&& final(self).completed_tasks@.len() == (if done > 1000 { done - 500 } else { done })
                    &&& final(self).completed_tasks@.last().id@ == task_id@
                    &&& final(self).completed_tasks@.last().started_at == now - actual_duration
                    &&& final(self).completed_tasks@.last().completed_at == now
                    &&& final(self).completed_tasks@.last().actual_duration == actual_duration
                    &&& final(self).completed_tasks@.last().success == success
                    &&& final(self).completed_tasks@.last().worker_id == old(self).running_tasks@[k].worker_id
                    &&& final(self).completed_tasks@.drop_last() == (if done > 1000 {
                        old(self).completed_tasks@.skip(500)
                    } else {
                        old(self).completed_tasks@
                    })
                },
    {
        let mut pos: usize = 0;
        while pos < self.running_tasks.len()
            invariant
                0 <= pos <= self.running_tasks@.len(),
                *self == *old(self),
                forall|j: int| 0 <= j < pos ==> self.running_tasks@[j].id@ != task_id@,
            ensures
                0 <= pos <= self.running_tasks@.len(),
                *self == *old(self),
                forall|j: int| 0 <= j < pos ==> self.running_tasks@[j].id@ != task_id@,
                pos < self.running_tasks@.len() ==> self.running_tasks@[pos as int].id@ == task_id@,
            decreases self.running_tasks@.len() - pos,
        {
            if str_eq(self.running_tasks[pos].id.as_str(), task_id) {
                break;
            }
            pos = pos + 1;
        }
        if pos == self.running_tasks.len() {
            return;
        }
        assert forall|k: int|
            0 <= k < old(self).running_tasks@.len() && (#[trigger] old(self).running_tasks@[k]).id@ == task_id@
                && (forall|j: int| 0 <= j < k ==> old(self).running_tasks@[j].id@ != task_id@)
            implies k == pos by {
            if k < pos {
            } else if k > pos {
                assert(old(self).running_tasks@[pos as int].id@ == task_id@);
            }
        }
        let running = self.running_tasks.remove(pos);
        let done = CompletedTask {
            id: String::from_str(task_id),
            started_at: now - actual_duration,
            completed_at: now,
            actual_duration,
            success,
            worker_id: running.worker_id,
        };
        let ghost before = self.completed_tasks@;
        self.completed_tasks.push(done);
        if self.completed_tasks.len() > 1000 {
            let ghost pushed = self.completed_tasks@;
            let mut kept: Vec<CompletedTask> = Vec::new();
            let mut i: usize = 500;
            let n = self.completed_tasks.len();
            while i < n
                invariant
                    500 <= i <= n == self.completed_tasks@.len(),
                    self.completed_tasks@ == pushed,
                    kept@ == pushed.subrange(500, i as int),
                decreases n - i,
            {
                let c = CompletedTask {
                    id: self.completed_tasks[i].id.clone(),
                    started_at: self.completed_tasks[i].started_at,
                    completed_at: self.completed_tasks[i].completed_at,
                    actual_duration: self.completed_tasks[i].actual_duration,
                    success: self.completed_tasks[i].success,
                    worker_id: self.completed_tasks[i].worker_id,
                };
                kept.push(c);
                assert(kept@ =~= pushed.subrange(500, i + 1));
                i = i + 1;
            }
            self.completed_tasks = kept;
            assert(self.completed_tasks@.drop_last() =~= before.skip(500));
        } else {
            assert(self.completed_tasks@.drop_last() =~= before);
        }
    }

    /// Sorts the queue by descending priority, keeping queue order among equals.
    pub fn rebalance_priorities(&mut self)
        ensures
            final(self).task_queue@ == sort_by_priority(old(self).task_queue@),
            final(self).running_tasks == old(self).running_tasks,
            final(self).completed_tasks == old(self).completed_tasks,
            final(self).max_concurrent_tasks == old(self).max_concurrent_tasks,
    {
        let ghost q0 = self.task_queue@;
        let ghost n = q0.len();
        let mut rest: Vec<ScheduledTask> = Vec::new();
        std::mem::swap(&mut rest, &mut self.task_queue);
        let mut out: Vec<ScheduledTask> = Vec::new();
        let ghost mut i: int = 0;
        while rest.len() > 0
            invariant
                0 <= i <= n,
                i + rest@.len() == n,
                q0.len() == n,
                rest@ == q0.skip(i),
                out@ == sort_by_priority(q0.take(i)),
            decreases rest@.len(),
        {
            let t = rest.remove(0);
            assert(q0.take(i + 1).drop_last() =~= q0.take(i));
            assert(rest@ =~= q0.skip(i + 1));
            let k = queue_insert_pos(&out, t.priority);
            out.insert(k, t);
            proof {
                i = i + 1;
            }
        }
        assert(q0.take(i) =~= q0);
        self.task_queue = out;
    }

    /// Keeps at most twice the concurrency limit of queued tasks, dropping from the back.
    pub fn cancel_low_priority_tasks(&mut self)
        ensures
            ({
                let cap = old(self).max_concurrent_tasks * 2;
                if old(self).task_queue@.len() > cap {
                    final(self).task_queue@ == old(self).task_queue@.take(cap)
                } else {
                    final(self).task_queue@ == old(self).task_queue@
                }
            }),
            final(self).running_tasks == old(self).running_tasks,
            final(self).completed_tasks == old(self).completed_tasks,
            final(self).max_concurrent_tasks == old(self).max_concurrent_tasks,
    {
        let n = self.task_queue.len();
        if self.max_concurrent_tasks <= usize::MAX / 2 {
            let cap = self.max_concurrent_tasks * 2;
            if n > cap {
                self.task_queue.truncate(cap);
            }
        }
    }

    /// Takes the next queued task when fewer tasks than the limit are running.
    pub fn get_next_task(&mut self) -> (r: Option<ScheduledTask>)
        ensures
            old(self).running_tasks@.len() < old(self).max_concurrent_tasks && old(self).task_queue@.len() > 0 ==> r == Some(old(self).task_queue@[0])
                && final(self).task_queue@ == old(self).task_queue@.drop_first(),
            !(old(self).running_tasks@.len() < old(self).max_concurrent_tasks && old(self).task_queue@.len() > 0) ==> r is None
                && final(self).task_queue@ == old(self).task_queue@,
            final(self).running_tasks == old(self).running_tasks,
            final(self).completed_tasks == old(self).completed_tasks,
            final(self).max_concurrent_tasks == old(self).max_concurrent_tasks,
    {
        if self.running_tasks.len() < self.max_concurrent_tasks && self.task_queue.len() > 0 {
            let t = self.task_queue.remove(0);
            assert(self.task_queue@ =~= old(self).task_queue@.drop_first());
            Some(t)
        } else {
            None
        }
    }
}

// ---------------------------------------------------------------------------------------
// Block pools
// ---------------------------------------------------------------------------------------

#[derive(Debug, Clone, Copy, PartialEq, Eq, Structural)]
pub struct MemoryBlock {
    pub address: usize,
    pub size: usize,
    pub allocated: bool,
    pub last_used: u64,
}

#[derive(Debug, Clone)]
pub struct MemoryPoolEntry {
    pub name: String,
    pub block_size: usize,
    pub blocks: Vec<MemoryBlock>,
    pub allocated_blocks: usize,
    pub total_blocks: usize,
}

#[derive(Debug, Clone)]
pub struct MemoryPool {
    pub pools: Vec<MemoryPoolEntry>,
    pub allocation_strategy: AllocationStrategy,
    pub max_pool_size: usize,
}

#[derive(Debug, Clone, Copy, PartialEq, Eq, Structural)]
pub enum PoolError {
    PoolNotFound,
    PoolFull,
    NoAvailableBlocks,
    BlockMismatch,
}

pub open spec fn count_allocated(b: Seq<MemoryBlock>) -> nat
    decreases b.len(),
{
    if b.len() == 0 {
        0
    } else {
        count_allocated(b.drop_last()) + if b.last().allocated {
            1nat
        } else {
            0nat
        }
    }
}

/// A pool whose counters agree with its blocks and whose addresses fit in `usize`.
pub open spec fn pool_wf(p: MemoryPoolEntry) -> bool {
    &&& p.allocated_blocks == count_allocated(p.blocks@)
    &&& p.blocks@.len() <= p.total_blocks
    &&& p.total_blocks * p.block_size <= usize::MAX
}

pub open spec fn pools_wf(m: MemoryPool) -> bool {
    forall|i: int| 0 <= i < m.pools@.len() ==> pool_wf(#[trigger] m.pools@[i])
}

/// Index of the first pool with this name, if any.
pub open spec fn pool_index(pools: Seq<MemoryPoolEntry>, name: Seq<char>) -> Option<int> {
    if exists|i: int| 0 <= i < pools.len() && (#[trigger] pools[i]).name@ == name {
        Some(choose|i: int| 0 <= i < pools.len() && pools[i].name@ == name && forall|j: int| 0 <= j < i ==> (#[trigger] pools[j]).name@ != name)
    } else {
        None
    }
}

/// Index of the first block satisfying `f`, if any.
pub open spec fn first_block(b: Seq<MemoryBlock>, f: spec_fn(MemoryBlock) -> bool) -> Option<int> {
    if exists|i: int| 0 <= i < b.len() && f(#[trigger] b[i]) {
        Some(choose|i: int| 0 <= i < b.len() && f(b[i]) && forall|j: int| 0 <= j < i ==> !f(#[trigger] b[j]))
    } else {
        None
    }
}

/// What allocating `size` bytes does to one pool, at time `now`: the pool afterwards and
/// the result.
pub open spec fn allocate_in(p: MemoryPoolEntry, size: usize, now: u64) -> (Seq<MemoryBlock>, usize, Result<usize, PoolError>) {
    if p.allocated_blocks >= p.total_blocks {
        (p.blocks@, p.allocated_blocks, Err(PoolError::PoolFull))
    } else {
        match first_block(p.blocks@, |b: MemoryBlock| !b.allocated && b.size >= size) {
            Some(i) => (
                p.blocks@.update(i, MemoryBlock { allocated: true, last_used: now, ..p.blocks@[i] }),
                (p.allocated_blocks + 1) as usize,
                Ok(p.blocks@[i].address),
            ),
            None => if p.blocks@.len() < p.total_blocks {
                let a = (p.blocks@.len() * p.block_size) as usize;
                (
                    p.blocks@.push(MemoryBlock { address: a, size: p.block_size, allocated: true, last_used: now }),
                    (p.allocated_blocks + 1) as usize,
                    Ok(a),
                )
            } else {
                (p.blocks@, p.allocated_blocks, Err(PoolError::NoAvailableBlocks))
            },
        }
    }
}

proof fn lemma_count_update(b: Seq<MemoryBlock>, i: int, nb: MemoryBlock)
    requires
        0 <= i < b.len(),
    ensures
        count_allocated(b.update(i, nb)) == count_allocated(b) - (if b[i].allocated { 1int } else { 0int }) + (if nb.allocated { 1int } else { 0int }),
    decreases b.len(),
{
    if i == b.len() - 1 {
        assert(b.update(i, nb).drop_last() =~= b.drop_last());
    } else {
        lemma_count_update(b.drop_last(), i, nb);
        assert(b.update(i, nb).drop_last() =~= b.drop_last().update(i, nb));
    }
}

proof fn lemma_count_le(b: Seq<MemoryBlock>)
    ensures
        count_allocated(b) <= b.len(),
    decreases b.len(),
{
    if b.len() > 0 {
        lemma_count_le(b.drop_last());
    }
}

proof fn lemma_count_pos(b: Seq<MemoryBlock>, i: int)
    requires
        0 <= i < b.len(),
        b[i].allocated,
    ensures
        count_allocated(b) >= 1,
    decreases b.len(),
{
    if i < b.len() - 1 {
        lemma_count_pos(b.drop_last(), i);
    }
}

fn find_pool(pools: &Vec<MemoryPoolEntry>, name: &str) -> (r: Option<usize>)
    ensures
        match r {
            Some(i) => pool_index(pools@, name@) == Some(i as int) && i < pools@.len(),
            None => pool_index(pools@, name@) is None,
        },
{
    let mut i: usize = 0;
    while i < pools.len()
        invariant
            0 <= i <= pools@.len(),
            forall|j: int| 0 <= j < i ==> (#[trigger] pools@[j]).name@ != name@,
        decreases pools@.len() - i,
    {
        if str_eq(pools[i].name.as_str(), name) {
            proof {
                let w = choose|k: int| 0 <= k < pools@.len() && pools@[k].name@ == name@ && forall|j: int| 0 <= j < k ==> (#[trigger] pools@[j]).name@ != name@;
                assert(0 <= i < pools@.len() && pools@[i as int].name@ == name@);
                if w > i {
                    assert(pools@[i as int].name@ != name@);
                }
            }
            return Some(i);
        }
        i = i + 1;
    }
    None
}

/// Index of the first block satisfying the exec-side test that `f` describes.
proof fn lemma_first_block(b: Seq<MemoryBlock>, f: spec_fn(MemoryBlock) -> bool, k: int)
    requires
        0 <= k < b.len(),
        f(b[k]),
        forall|j: int| 0 <= j < k ==> !f(#[trigger] b[j]),
    ensures
        first_block(b, f) == Some(k),
{
    let w = choose|x: int| 0 <= x < b.len() && f(b[x]) && forall|j: int| 0 <= j < x ==> !f(#[trigger] b[j]);
    assert(0 <= w < b.len() && f(b[w]));
    if w > k {
        assert(!f(b[k]));
    }
}

proof fn lemma_no_block(b: Seq<MemoryBlock>, f: spec_fn(MemoryBlock) -> bool)
    requires
        forall|j: int| 0 <= j < b.len() ==> !f(#[trigger] b[j]),
    ensures
        first_block(b, f) is None,
{
}

proof fn lemma_remove_insert<A>(s: Seq<A>, i: int, x: A)
    requires
        0 <= i < s.len(),
    ensures
        s.remove(i).insert(i, x) == s.update(i, x),
{
    assert(s.remove(i).insert(i, x) =~= s.update(i, x));
}

/// Allocates within one pool; `allocate_in` says what happens.
fn allocate_in_pool(pool: &mut MemoryPoolEntry, size: usize, now: u64) -> (r: Result<usize, PoolError>)
    requires
        pool_wf(*old(pool)),
    ensures
        pool_wf(*final(pool)),
        final(pool).blocks@ == allocate_in(*old(pool), size, now).0,
        final(pool).allocated_blocks == allocate_in(*old(pool), size, now).1,
        r == allocate_in(*old(pool), size, now).2,
        final(pool).name == old(pool).name,
        final(pool).block_size == old(pool).block_size,
        final(pool).total_blocks == old(pool).total_blocks,
{
    if pool.allocated_blocks >= pool.total_blocks {
        return Err(PoolError::PoolFull);
    }
    let ghost f = |b: MemoryBlock| !b.allocated && b.size >= size;
    let mut k: usize = 0;
    while k < pool.blocks.len() && !(!pool.blocks[k].allocated && pool.blocks[k].size >= size)
        invariant
            0 <= k <= pool.blocks@.len(),
            *pool == *old(pool),
            f == (|b: MemoryBlock| !b.allocated && b.size >= size),
            forall|j: int| 0 <= j < k ==> !f(#[trigger] pool.blocks@[j]),
        decreases pool.blocks@.len() - k,
    {
        k = k + 1;
    }
    if k < pool.blocks.len() {
        proof {
            lemma_first_block(pool.blocks@, f, k as int);
            lemma_count_update(pool.blocks@, k as int, MemoryBlock { allocated: true, last_used: now, ..pool.blocks@[k as int] });
        }
        let b = pool.blocks[k];
        pool.blocks.set(k, MemoryBlock { allocated: true, last_used: now, ..b });
        pool.allocated_blocks = pool.allocated_blocks + 1;
        Ok(b.address)
    } else {
        proof {
            lemma_no_block(pool.blocks@, f);
        }
        if pool.blocks.len() < pool.total_blocks {
            proof {
                vstd::arithmetic::mul::lemma_mul_inequality(pool.blocks@.len() as int, pool.total_blocks as int, pool.block_size as int);
            }
            let address = pool.blocks.len() * pool.block_size;
            pool.blocks.push(MemoryBlock { address, size: pool.block_size, allocated: true, last_used: now });
            assert(pool.blocks@.drop_last() =~= old(pool).blocks@);
            pool.allocated_blocks = pool.allocated_blocks + 1;
            Ok(address)
        } else {
            Err(PoolError::NoAvailableBlocks)
        }
    }
}

/// Frees the first allocated block of exactly `size` bytes within one pool.
fn deallocate_in_pool(pool: &mut MemoryPoolEntry, size: usize)
    requires
        pool_wf(*old(pool)),
    ensures
        pool_wf(*final(pool)),
        final(pool).name == old(pool).name,
        final(pool).block_size == old(pool).block_size,
        final(pool).total_blocks == old(pool).total_blocks,
        match first_block(old(pool).blocks@, |b: MemoryBlock| b.allocated && b.size == size) {
            Some(k) => final(pool).blocks@ == old(pool).blocks@.update(k, MemoryBlock { allocated: false, ..old(pool).blocks@[k] })
                && final(pool).allocated_blocks == old(pool).allocated_blocks - 1,
            None => *final(pool) == *old(pool),
        },
{
    let ghost f = |b: MemoryBlock| b.allocated && b.size == size;
    let mut k: usize = 0;
    while k < pool.blocks.len() && !(pool.blocks[k].allocated && pool.blocks[k].size == size)
        invariant
            0 <= k <= pool.blocks@.len(),
            *pool == *old(pool),
            f == (|b: MemoryBlock| b.allocated && b.size == size),
            forall|j: int| 0 <= j < k ==> !f(#[trigger] pool.blocks@[j]),
        decreases pool.blocks@.len() - k,
    {
        k = k + 1;
    }
    if k < pool.blocks.len() {
        proof {
            lemma_first_block(pool.blocks@, f, k as int);
            lemma_count_update(pool.blocks@, k as int, MemoryBlock { allocated: false, ..pool.blocks@[k as int] });
            lemma_count_pos(pool.blocks@, k as int);
        }
        let b = pool.blocks[k];
        pool.blocks.set(k, MemoryBlock { allocated: false, ..b });
        pool.allocated_blocks = pool.allocated_blocks - 1;
    } else {
        proof {
            lemma_no_block(pool.blocks@, f);
        }
    }
}

/// Frees the block at `address` within one pool when it is allocated with exactly `size`
/// bytes.
fn deallocate_at_in_pool(pool: &mut MemoryPoolEntry, address: usize, size: usize) -> (r: Result<(), PoolError>)
    requires
        pool_wf(*old(pool)),
    ensures
        pool_wf(*final(pool)),
        final(pool).name == old(pool).name,
        final(pool).block_size == old(pool).block_size,
        final(pool).total_blocks == old(pool).total_blocks,
        match first_block(old(pool).blocks@, |b: MemoryBlock| b.address == address) {
            Some(k) => if old(pool).blocks@[k].allocated && old(pool).blocks@[k].size == size {
                &&& r is Ok
                &&& final(pool).blocks@ == old(pool).blocks@.update(k, MemoryBlock { allocated: false, ..old(pool).blocks@[k] })
                &&& final(pool).allocated_blocks == old(pool).allocated_blocks - 1
            } else {
                r == Err::<(), PoolError>(PoolError::BlockMismatch) && *final(pool) == *old(pool)
            },
            None => r == Err::<(), PoolError>(PoolError::BlockMismatch) && *final(pool) == *old(pool),
        },
{
    let ghost f = |b: MemoryBlock| b.address == address;
    let mut k: usize = 0;
    while k < pool.blocks.len() && pool.blocks[k].address != address
        invariant
            0 <= k <= pool.blocks@.len(),
            *pool == *old(pool),
            f == (|b: MemoryBlock| b.address == address),
            forall|j: int| 0 <= j < k ==> !f(#[trigger] pool.blocks@[j]),
        decreases pool.blocks@.len() - k,
    {
        k = k + 1;
    }
    if k == pool.blocks.len() {
        proof {
            lemma_no_block(pool.blocks@, f);
        }
        return Err(PoolError::BlockMismatch);
    }
    proof {
        lemma_first_block(pool.blocks@, f, k as int);
    }
    let b = pool.blocks[k];
    if !(b.allocated && b.size == size) {
        return Err(PoolError::BlockMismatch);
    }
    proof {
        lemma_count_update(pool.blocks@, k as int, MemoryBlock { allocated: false, ..pool.blocks@[k as int] });
        lemma_count_pos(pool.blocks@, k as int);
    }
    pool.blocks.set(k, MemoryBlock { allocated: false, ..b });
    pool.allocated_blocks = pool.allocated_blocks - 1;
    Ok(())
}

impl MemoryPool {
    /// No pools yet; best-fit strategy and a ten-megabyte ceiling.
    pub fn new() -> (r: MemoryPool)
        ensures
            r.pools@.len() == 0,
            r.allocation_strategy == AllocationStrategy::BestFit,
            r.max_pool_size == 10 * 1024 * 1024,
    {
        MemoryPool { pools: Vec::new(), allocation_strategy: AllocationStrategy::BestFit, max_pool_size: 10 * 1024 * 1024 }
    }

    /// Hands out a block of at least `size` bytes from the named pool: the first free block
    /// that is large enough, else a new block at the end while the pool has room.
    pub fn allocate(&mut self, size: usize, pool_name: &str, now: u64) -> (r: Result<usize, PoolError>)
        requires
            pools_wf(*old(self)),
        ensures
            pools_wf(*final(self)),
            final(self).allocation_strategy == old(self).allocation_strategy,
            final(self).max_pool_size == old(self).max_pool_size,
            match pool_index(old(self).pools@, pool_name@) {
                None => r == Err::<usize, PoolError>(PoolError::PoolNotFound) && final(self).pools@ == old(self).pools@,
                Some(i) => {
                    let p = old(self).pools@[i];
                    let q = final(self).pools@[i];
                    &&& final(self).pools@ == old(self).pools@.update(i, q)
                    &&& r == allocate_in(p, size, now).2
                    &&& q.blocks@ == allocate_in(p, size, now).0
                    &&& q.allocated_blocks == allocate_in(p, size, now).1
                    &&& q.name == p.name && q.block_size == p.block_size && q.total_blocks == p.total_blocks
                },
            },
    {
        let i = match find_pool(&self.pools, pool_name) {
            Some(i) => i,
            None => return Err(PoolError::PoolNotFound),
        };
        assert(pool_wf(self.pools@[i as int]));
        let mut pool = self.pools.remove(i);
        let r = allocate_in_pool(&mut pool, size, now);
        self.pools.insert(i, pool);
        proof {
            lemma_remove_insert(old(self).pools@, i as int, pool);
            assert forall|j: int| 0 <= j < self.pools@.len() implies pool_wf(#[trigger] self.pools@[j]) by {
                if j != i {
                    assert(self.pools@[j] == old(self).pools@[j]);
                }
            }
        }
        r
    }

    /// Frees the first allocated block of exactly `size` bytes in the named pool; an unknown
    /// pool or no such block changes nothing.
    pub fn deallocate(&mut self, size: usize, pool_name: &str)
        requires
            pools_wf(*old(self)),
        ensures
            pools_wf(*final(self)),
            final(self).allocation_strategy == old(self).allocation_strategy,
            final(self).max_pool_size == old(self).max_pool_size,
            match pool_index(old(self).pools@, pool_name@) {
                None => final(self).pools@ == old(self).pools@,
                Some(i) => {
                    let p = old(self).pools@[i];
                    let q = final(self).pools@[i];
                    &&& final(self).pools@ == old(self).pools@.update(i, q)
                    &&& q.name == p.name && q.block_size == p.block_size && q.total_blocks == p.total_blocks
                    &&& match first_block(p.blocks@, |b: MemoryBlock| b.allocated && b.size == size) {
                        Some(k) => q.blocks@ == p.blocks@.update(k, MemoryBlock { allocated: false, ..p.blocks@[k] })
                            && q.allocated_blocks == p.allocated_blocks - 1,
                        None => q == p,
                    }
                },
            },
    {
        let i = match find_pool(&self.pools, pool_name) {
            Some(i) => i,
            None => return,
        };
        assert(pool_wf(self.pools@[i as int]));
        let mut pool = self.pools.remove(i);
        deallocate_in_pool(&mut pool, size);
        self.pools.insert(i, pool);
        proof {
            lemma_remove_insert(old(self).pools@, i as int, pool);
            assert forall|j: int| 0 <= j < self.pools@.len() implies pool_wf(#[trigger] self.pools@[j]) by {
                if j != i {
                    assert(self.pools@[j] == old(self).pools@[j]);
                }
            }
        }
    }

    /// Frees the block at `address` in the named pool if it is allocated with exactly `size`
    /// bytes; otherwise reports the mismatch and changes nothing.
    pub fn deallocate_at_address(&mut self, address: usize, size: usize, pool_name: &str) -> (r: Result<(), PoolError>)
        requires
            pools_wf(*old(self)),
        ensures
            pools_wf(*final(self)),
            final(self).allocation_strategy == old(self).allocation_strategy,
            final(self).max_pool_size == old(self).max_pool_size,
            match pool_index(old(self).pools@, pool_name@) {
                None => r == Err::<(), PoolError>(PoolError::PoolNotFound) && final(self).pools@ == old(self).pools@,
                Some(i) => {
                    let p = old(self).pools@[i];
                    let q = final(self).pools@[i];
                    &&& final(self).pools@ == old(self).pools@.update(i, q)
                    &&& q.name == p.name && q.block_size == p.block_size && q.total_blocks == p.total_blocks
                    &&& match first_block(p.blocks@, |b: MemoryBlock| b.address == address) {
                        Some(k) => if p.blocks@[k].allocated && p.blocks@[k].size == size {
                            &&& r is Ok
                            &&& q.blocks@ == p.blocks@.update(k, MemoryBlock { allocated: false, ..p.blocks@[k] })
                            &&& q.allocated_blocks == p.allocated_blocks - 1
                        } else {
                            r == Err::<(), PoolError>(PoolError::BlockMismatch) && q == p
                        },
                        None => r == Err::<(), PoolError>(PoolError::BlockMismatch) && q == p,
                    }
                },
            },
    {
        let i = match find_pool(&self.pools, pool_name) {
            Some(i) => i,
            None => return Err(PoolError::PoolNotFound),
        };
        assert(pool_wf(self.pools@[i as int]));
        let mut pool = self.pools.remove(i);
        let r = deallocate_at_in_pool(&mut pool, address, size);
        self.pools.insert(i, pool);
        proof {
            lemma_remove_insert(old(self).pools@, i as int, pool);
            assert forall|j: int| 0 <= j < self.pools@.len() implies pool_wf(#[trigger] self.pools@[j]) by {
                if j != i {
                    assert(self.pools@[j] == old(self).pools@[j]);
                }
            }
        }
        r
    }
}


pub open spec fn only_allocated(b: Seq<MemoryBlock>) -> Seq<MemoryBlock> {
    b.filter(|x: MemoryBlock| x.allocated)
}

pub open spec fn only_free(b: Seq<MemoryBlock>) -> Seq<MemoryBlock> {
    b.filter(|x: MemoryBlock| !x.allocated)
}

/// The blocks kept by a cleanup with the given cutoff: allocated ones and those used after it.
pub open spec fn recent(b: Seq<MemoryBlock>, cutoff: u64) -> Seq<MemoryBlock> {
    b.filter(|x: MemoryBlock| x.allocated || x.last_used > cutoff)
}

/// `q` is `p` with its allocated blocks moved to the front.
pub open spec fn defragmented(p: MemoryPoolEntry, q: MemoryPoolEntry) -> bool {
    &&& q.blocks@ == only_allocated(p.blocks@) + only_free(p.blocks@)
    &&& q.name == p.name && q.block_size == p.block_size
    &&& q.allocated_blocks == p.allocated_blocks && q.total_blocks == p.total_blocks
}

/// `q` is `p` after a cleanup with this cutoff.
pub open spec fn cleaned(p: MemoryPoolEntry, q: MemoryPoolEntry, cutoff: u64) -> bool {
    &&& q.blocks@ == recent(p.blocks@, cutoff)
    &&& q.name == p.name && q.block_size == p.block_size
    &&& q.total_blocks == q.blocks@.len()
    &&& q.allocated_blocks == count_allocated(q.blocks@)
}

/// Five minutes, in nanoseconds.
pub open spec fn idle_limit_ns() -> u64 {
    300_000_000_000u64
}

proof fn lemma_count_filter_allocated(b: Seq<MemoryBlock>)
    ensures
        count_allocated(only_allocated(b)) == count_allocated(b),
        only_allocated(b).len() == count_allocated(b),
        count_allocated(only_free(b)) == 0,
        only_allocated(b).len() + only_free(b).len() == b.len(),
    decreases b.len(),
{
    reveal_with_fuel(Seq::filter, 1);
    if b.len() > 0 {
        lemma_count_filter_allocated(b.drop_last());
        assert(only_allocated(b) == if b.last().allocated { only_allocated(b.drop_last()).push(b.last()) } else { only_allocated(b.drop_last()) });
        assert(only_free(b) == if !b.last().allocated { only_free(b.drop_last()).push(b.last()) } else { only_free(b.drop_last()) });
        if b.last().allocated {
            assert(only_allocated(b).drop_last() =~= only_allocated(b.drop_last()));
        } else {
            assert(only_free(b).drop_last() =~= only_free(b.drop_last()));
        }
    }
}

proof fn lemma_count_concat(a: Seq<MemoryBlock>, b: Seq<MemoryBlock>)
    ensures
        count_allocated(a + b) == count_allocated(a) + count_allocated(b),
    decreases b.len(),
{
    if b.len() > 0 {
        lemma_count_concat(a, b.drop_last());
        assert((a + b).drop_last() =~= a + b.drop_last());
    } else {
        assert(a + b =~= a);
    }
}

proof fn lemma_filter_len<A>(b: Seq<A>, f: spec_fn(A) -> bool)
    ensures
        b.filter(f).len() <= b.len(),
    decreases b.len(),
{
    reveal_with_fuel(Seq::filter, 1);
    if b.len() > 0 {
        lemma_filter_len(b.drop_last(), f);
    }
}

fn partition_blocks(blocks: Vec<MemoryBlock>) -> (r: Vec<MemoryBlock>)
    ensures
        r@ == only_allocated(blocks@) + only_free(blocks@),
{
    let mut a: Vec<MemoryBlock> = Vec::new();
    let mut f: Vec<MemoryBlock> = Vec::new();
    let mut i: usize = 0;
    while i < blocks.len()
        invariant
            0 <= i <= blocks@.len(),
            a@ == only_allocated(blocks@.take(i as int)),
            f@ == only_free(blocks@.take(i as int)),
        decreases blocks@.len() - i,
    {
        reveal_with_fuel(Seq::filter, 1);
        assert(blocks@.take(i + 1).drop_last() =~= blocks@.take(i as int));
        let b = blocks[i];
        if b.allocated {
            a.push(b);
        } else {
            f.push(b);
        }
        i = i + 1;
    }
    assert(blocks@.take(blocks@.len() as int) =~= blocks@);
    let mut out = a;
    let mut j: usize = 0;
    let ghost a0 = out@;
    while j < f.len()
        invariant
            0 <= j <= f@.len(),
            out@ == a0 + f@.take(j as int),
        decreases f@.len() - j,
    {
        out.push(f[j]);
        assert(a0 + f@.take(j + 1) =~= (a0 + f@.take(j as int)).push(f@[j as int]));
        j = j + 1;
    }
    assert(f@.take(f@.len() as int) =~= f@);
    out
}

fn retain_recent(blocks: Vec<MemoryBlock>, cutoff: u64) -> (r: Vec<MemoryBlock>)
    ensures
        r@ == recent(blocks@, cutoff),
{
    let mut out: Vec<MemoryBlock> = Vec::new();
    let mut i: usize = 0;
    while i < blocks.len()
        invariant
            0 <= i <= blocks@.len(),
            out@ == recent(blocks@.take(i as int), cutoff),
        decreases blocks@.len() - i,
    {
        reveal_with_fuel(Seq::filter, 1);
        assert(blocks@.take(i + 1).drop_last() =~= blocks@.take(i as int));
        let b = blocks[i];
        if b.allocated || b.last_used > cutoff {
            out.push(b);
        }
        i = i + 1;
    }
    assert(blocks@.take(blocks@.len() as int) =~= blocks@);
    out
}

fn count_allocated_exec(blocks: &Vec<MemoryBlock>) -> (r: usize)
    ensures
        r == count_allocated(blocks@),
{
    let mut n: usize = 0;
    let mut i: usize = 0;
    while i < blocks.len()
        invariant
            0 <= i <= blocks@.len(),
            n == count_allocated(blocks@.take(i as int)),
            n <= i,
        decreases blocks@.len() - i,
    {
        assert(blocks@.take(i + 1).drop_last() =~= blocks@.take(i as int));
        if blocks[i].allocated {
            n = n + 1;
        }
        i = i + 1;
    }
    assert(blocks@.take(blocks@.len() as int) =~= blocks@);
    n
}

impl MemoryPool {
    /// Moves every pool's allocated blocks to the front, keeping the order within the
    /// allocated and within the free blocks.
    pub fn defragment(&mut self)
        requires
            pools_wf(*old(self)),
        ensures
            pools_wf(*final(self)),
            final(self).pools@.len() == old(self).pools@.len(),
            final(self).allocation_strategy == old(self).allocation_strategy,
            final(self).max_pool_size == old(self).max_pool_size,
            forall|i: int| 0 <= i < old(self).pools@.len() ==> defragmented(old(self).pools@[i], #[trigger] final(self).pools@[i]),
    {
        let ghost n = self.pools@.len();
        let mut done: Vec<MemoryPoolEntry> = Vec::new();
        let mut rest: Vec<MemoryPoolEntry> = Vec::new();
        std::mem::swap(&mut rest, &mut self.pools);
        let ghost p0 = rest@;
        let ghost mut i: int = 0;
        while rest.len() > 0
            invariant
                0 <= i <= n,
                p0.len() == n,
                i + rest@.len() == n,
                rest@ == p0.skip(i),
                done@.len() == i,
                forall|j: int| 0 <= j < p0.len() ==> pool_wf(#[trigger] p0[j]),
                forall|j: int| 0 <= j < i ==> pool_wf(#[trigger] done@[j]) && defragmented(p0[j], done@[j]),
            decreases rest@.len(),
        {
            let ghost rx = rest@;
            let pool = rest.remove(0);
            assert(pool == p0[i]);
            assert(rest@ =~= p0.skip(i + 1));
            let ghost pool_g = pool;
            let MemoryPoolEntry { name, block_size, blocks, allocated_blocks, total_blocks } = pool;
            let ghost old_blocks = blocks@;
            let blocks = partition_blocks(blocks);
            proof {
                lemma_count_filter_allocated(old_blocks);
                lemma_count_concat(only_allocated(old_blocks), only_free(old_blocks));
            }
            let ghost before = done@;
            let q = MemoryPoolEntry { name, block_size, blocks, allocated_blocks, total_blocks };
            assert(pool_wf(q));
            done.push(q);
            proof {
                assert forall|j: int| 0 <= j < i + 1 implies pool_wf(#[trigger] done@[j]) && defragmented(p0[j], done@[j]) by {
                    if j < i {
                        assert(done@[j] == before[j]);
                    } else {
                        assert(done@[j] == q);
                        assert(p0[j] == pool_g);
                    }
                }
                i = i + 1;
            }
        }
        self.pools = done;

    }

    /// Drops every free block idle for more than five minutes before `now`, then recounts.
    pub fn cleanup(&mut self, now: u64)
        requires
            now >= idle_limit_ns(),
            pools_wf(*old(self)),
        ensures
            pools_wf(*final(self)),
            final(self).pools@.len() == old(self).pools@.len(),
            final(self).allocation_strategy == old(self).allocation_strategy,
            final(self).max_pool_size == old(self).max_pool_size,
            forall|i: int| 0 <= i < old(self).pools@.len() ==> cleaned(old(self).pools@[i], #[trigger] final(self).pools@[i], (now - idle_limit_ns()) as u64),
    {
        let cutoff = now - 300_000_000_000u64;
        let ghost n = self.pools@.len();
        let mut done: Vec<MemoryPoolEntry> = Vec::new();
        let mut rest: Vec<MemoryPoolEntry> = Vec::new();
        std::mem::swap(&mut rest, &mut self.pools);
        let ghost p0 = rest@;
        let ghost mut i: int = 0;
        while rest.len() > 0
            invariant
                0 <= i <= n,
                p0.len() == n,
                i + rest@.len() == n,
                rest@ == p0.skip(i),
                done@.len() == i,
                cutoff == now - idle_limit_ns(),
                forall|j: int| 0 <= j < p0.len() ==> pool_wf(#[trigger] p0[j]),
                forall|j: int| 0 <= j < i ==> pool_wf(#[trigger] done@[j]) && cleaned(p0[j], done@[j], cutoff),
            decreases rest@.len(),
        {
            let pool = rest.remove(0);
            assert(pool == p0[i]);
            assert(rest@ =~= p0.skip(i + 1));
            let ghost pool_g = pool;
            let MemoryPoolEntry { name, block_size, blocks, allocated_blocks: _, total_blocks: old_total } = pool;
            let ghost old_len = blocks@.len();
            proof {
                lemma_filter_len(blocks@, |x: MemoryBlock| x.allocated || x.last_used > cutoff);
            }
            let blocks = retain_recent(blocks, cutoff);
            let total = blocks.len();
            let allocated = count_allocated_exec(&blocks);
            proof {
                lemma_count_le(blocks@);
            }
            let q = MemoryPoolEntry { name, block_size, blocks, allocated_blocks: allocated, total_blocks: total };
            proof {
                vstd::arithmetic::mul::lemma_mul_inequality(total as int, old_total as int, block_size as int);
            }
            let ghost before = done@;
            done.push(q);
            proof {
                assert forall|j: int| 0 <= j < i + 1 implies pool_wf(#[trigger] done@[j]) && cleaned(p0[j], done@[j], cutoff) by {
                    if j < i {
                        assert(done@[j] == before[j]);
                    } else {
                        assert(done@[j] == q);
                        assert(p0[j] == pool_g);
                    }
                }
                i = i + 1;
            }
        }
        self.pools = done;

    }
}

// ---------------------------------------------------------------------------------------
// Metric histories
// ---------------------------------------------------------------------------------------

/// A memory reading.
#[derive(Debug, Clone, Copy, PartialEq, Eq, Structural)]
pub struct MemorySnapshot {
    pub timestamp: u64,
    pub total_allocated: usize,
    pub total_freed: usize,
    pub current_usage: usize,
    pub peak_usage: usize,
}

/// Bounded histories of frame times, command times and memory readings (oldest first).
#[derive(Debug, Clone)]
pub struct PerformanceMetrics {
    pub frame_times: Vec<u64>,
    pub command_times: Vec<u64>,
    pub memory_usage: Vec<MemorySnapshot>,
    pub network_latency: Vec<u64>,
    pub task_queue_sizes: Vec<usize>,
    pub max_history_size: usize,
}

/// `x` appended, and the oldest entry dropped when that exceeds `max`.
pub open spec fn bounded_push<A>(s: Seq<A>, x: A, max: usize) -> Seq<A> {
    if s.len() + 1 > max {
        s.push(x).drop_first()
    } else {
        s.push(x)
    }
}

/// The newest `max` entries.
pub open spec fn keep_newest<A>(s: Seq<A>, max: usize) -> Seq<A> {
    if s.len() > max {
        s.skip(s.len() - max)
    } else {
        s
    }
}

pub open spec fn sum_ns(s: Seq<u64>) -> int
    decreases s.len(),
{
    if s.len() == 0 {
        0
    } else {
        sum_ns(s.drop_last()) + s.last()
    }
}

/// `Duration / n` for a duration of `total` nanoseconds, as `std` computes it: whole seconds
/// and the sub-second part are divided separately.
pub open spec fn duration_div(total: int, n: int) -> int {
    let secs = total / 1_000_000_000;
    let nanos = total % 1_000_000_000;
    (secs / n) * 1_000_000_000 + nanos / n + ((secs % n) * 1_000_000_000) / n
}

/// The mean of a history, or zero when it is empty.
pub open spec fn average_spec(s: Seq<u64>) -> int {
    if s.len() == 0 {
        0
    } else {
        duration_div(sum_ns(s), s.len() as int)
    }
}

pub(crate) proof fn lemma_sum_bound(s: Seq<u64>)
    ensures
        0 <= sum_ns(s) <= s.len() * 0xffff_ffff_ffff_ffffu64,
    decreases s.len(),
{
    if s.len() > 0 {
        lemma_sum_bound(s.drop_last());
        assert(sum_ns(s) <= (s.len() - 1) * 0xffff_ffff_ffff_ffffu64 + 0xffff_ffff_ffff_ffffu64);
        assert((s.len() - 1) * 0xffff_ffff_ffff_ffffu64 + 0xffff_ffff_ffff_ffffu64 == s.len() * 0xffff_ffff_ffff_ffffu64) by (nonlinear_arith);
    }
}

fn push_bounded_u64(v: &mut Vec<u64>, x: u64, max: usize)
    ensures
        final(v)@ == bounded_push(old(v)@, x, max),
{
    v.push(x);
    if v.len() > max {
        v.remove(0);
        assert(v@ =~= old(v)@.push(x).drop_first());
    }
}

fn keep_newest_vec<A>(v: &mut Vec<A>, max: usize)
    ensures
        final(v)@ == keep_newest(old(v)@, max),
{
    let n = v.len();
    if n > max {
        let excess = n - max;
        let mut k: usize = 0;
        while k < excess
            invariant
                0 <= k <= excess,
                excess == n - max,
                n == old(v)@.len(),
                v@ == old(v)@.skip(k as int),
            decreases excess - k,
        {
            v.remove(0);
            assert(v@ =~= old(v)@.skip(k + 1));
            k = k + 1;
        }
    }
}

pub(crate) fn average_u64(v: &Vec<u64>) -> (r: u128)
    requires
        v@.len() <= u32::MAX,
        sum_ns(v@) / 1_000_000_000 <= u64::MAX,
    ensures
        r == average_spec(v@),
{
    if v.len() == 0 {
        return 0;
    }
    let mut total: u128 = 0;
    let mut i: usize = 0;
    while i < v.len()
        invariant
            0 <= i <= v@.len() <= u32::MAX,
            total == sum_ns(v@.take(i as int)),
        decreases v@.len() - i,
    {
        assert(v@.take(i + 1).drop_last() =~= v@.take(i as int));
        proof {
            lemma_sum_bound(v@.take(i + 1));
            assert((i + 1) * 0xffff_ffff_ffff_ffffu64 <= 0x1_0000_0000u64 * 0xffff_ffff_ffff_ffffu64) by (nonlinear_arith)
                requires i + 1 <= 0x1_0000_0000u64;
        }
        total = total + v[i] as u128;
        i = i + 1;
    }
    assert(v@.take(v@.len() as int) =~= v@);
    let n = v.len() as u128;
    let secs = total / 1_000_000_000;
    let nanos = total % 1_000_000_000;
    proof {
        let si = secs as int;
        let ni = n as int;
        assert(si <= u64::MAX);
        assert((si / ni) * 1_000_000_000 <= si * 1_000_000_000) by (nonlinear_arith)
            requires ni >= 1, si >= 0;
        assert(((si % ni) * 1_000_000_000) / ni <= 1_000_000_000) by (nonlinear_arith)
            requires ni >= 1, si >= 0;
        assert(si * 1_000_000_000 <= 0xffff_ffff_ffff_ffffu64 * 1_000_000_000) by (nonlinear_arith)
            requires si <= 0xffff_ffff_ffff_ffffu64, si >= 0;
    }
    (secs / n) * 1_000_000_000 + nanos / n + ((secs % n) * 1_000_000_000) / n
}

impl PerformanceMetrics {
    /// Empty histories of up to a thousand entries each.
    pub fn new() -> (r: PerformanceMetrics)
        ensures
            r.frame_times@.len() == 0,
            r.command_times@.len() == 0,
            r.memory_usage@.len() == 0,
            r.network_latency@.len() == 0,
            r.task_queue_sizes@.len() == 0,
            r.max_history_size == 1000,
    {
        PerformanceMetrics {
            frame_times: Vec::new(),
            command_times: Vec::new(),
            memory_usage: Vec::new(),
            network_latency: Vec::new(),
            task_queue_sizes: Vec::new(),
            max_history_size: 1000,
        }
    }

    /// Records a frame time, dropping the oldest when the history is over its size.
    pub fn add_frame_time(&mut self, frame_time: u64)
        ensures
            final(self).frame_times@ == bounded_push(old(self).frame_times@, frame_time, old(self).max_history_size),
            final(self).command_times == old(self).command_times,
            final(self).memory_usage == old(self).memory_usage,
            final(self).max_history_size == old(self).max_history_size,
    {
        push_bounded_u64(&mut self.frame_times, frame_time, self.max_history_size);
    }

    /// Records a command time, dropping the oldest when the history is over its size.
    pub fn add_command_time(&mut self, command_time: u64)
        ensures
            final(self).command_times@ == bounded_push(old(self).command_times@, command_time, old(self).max_history_size),
            final(self).frame_times == old(self).frame_times,
            final(self).memory_usage == old(self).memory_usage,
            final(self).max_history_size == old(self).max_history_size,
    {
        push_bounded_u64(&mut self.command_times, command_time, self.max_history_size);
    }

    /// Records a memory reading, dropping the oldest when the history is over its size.
    pub fn add_memory_usage(&mut self, usage: MemorySnapshot)
        ensures
            final(self).memory_usage@ == bounded_push(old(self).memory_usage@, usage, old(self).max_history_size),
            final(self).frame_times == old(self).frame_times,
            final(self).command_times == old(self).command_times,
            final(self).max_history_size == old(self).max_history_size,
    {
        self.memory_usage.push(usage);
        if self.memory_usage.len() > self.max_history_size {
            self.memory_usage.remove(0);
            assert(self.memory_usage@ =~= old(self).memory_usage@.push(usage).drop_first());
        }
    }

    /// Cuts each history down to its newest `max_history_size` entries.
    pub fn trim_history(&mut self)
        ensures
            final(self).frame_times@ == keep_newest(old(self).frame_times@, old(self).max_history_size),
            final(self).command_times@ == keep_newest(old(self).command_times@, old(self).max_history_size),
            final(self).memory_usage@ == keep_newest(old(self).memory_usage@, old(self).max_history_size),
            final(self).max_history_size == old(self).max_history_size,
    {
        let max = self.max_history_size;
        keep_newest_vec(&mut self.frame_times, max);
        keep_newest_vec(&mut self.command_times, max);
        keep_newest_vec(&mut self.memory_usage, max);
    }

    /// Mean frame time in nanoseconds (zero when none is recorded).
    pub fn get_average_frame_time(&self) -> (r: u128)
        requires
            self.frame_times@.len() <= u32::MAX,
            sum_ns(self.frame_times@) / 1_000_000_000 <= u64::MAX,
        ensures
            r == average_spec(self.frame_times@),
    {
        average_u64(&self.frame_times)
    }

    /// Mean command time in nanoseconds (zero when none is recorded).
    pub fn get_average_command_time(&self) -> (r: u128)
        requires
            self.command_times@.len() <= u32::MAX,
            sum_ns(self.command_times@) / 1_000_000_000 <= u64::MAX,
        ensures
            r == average_spec(self.command_times@),
    {
        average_u64(&self.command_times)
    }

    /// Current usage of the newest memory reading.
    pub fn get_current_memory_usage(&self) -> (r: Option<usize>)
        ensures
            r == (if self.memory_usage@.len() == 0 {
                None
            } else {
                Some(self.memory_usage@.last().current_usage)
            }),
    {
        let n = self.memory_usage.len();
        if n == 0 {
            None
        } else {
            Some(self.memory_usage[n - 1].current_usage)
        }
    }
}

// ---------------------------------------------------------------------------------------
// The manager
// ---------------------------------------------------------------------------------------

/// Something that happened which the manager accounts for.
#[derive(Debug, Clone)]
pub enum PerformanceEvent {
    TaskScheduled { task_id: String, priority: TaskPriority, estimated_duration: u64 },
    TaskCompleted { task_id: String, actual_duration: u64, success: bool },
    MemoryAllocated { size: usize, pool: String },
    MemoryDeallocated { size: usize, pool: String },
    FrameRendered { duration: u64, frame_time: u64 },
    CommandProcessed { duration: u64, complexity: CommandComplexity },
}

/// Metrics, scheduler and pools together.
#[derive(Debug, Clone)]
pub struct PerformanceManager {
    pub metrics: PerformanceMetrics,
    pub task_scheduler: TaskScheduler,
    pub memory_pool: MemoryPool,
}

/// Frames slower than this (16 ms, in nanoseconds) are over budget.
pub open spec fn frame_budget_ns() -> u64 {
    16_000_000u64
}

fn pool_entry(name: &str, block_size: usize, total_blocks: usize) -> (r: MemoryPoolEntry)
    requires
        total_blocks * block_size <= usize::MAX,
    ensures
        r.name@ == name@,
        r.block_size == block_size,
        r.total_blocks == total_blocks,
        r.blocks@.len() == 0,
        r.allocated_blocks == 0,
        pool_wf(r),
{
    MemoryPoolEntry { name: String::from_str(name), block_size, blocks: Vec::new(), allocated_blocks: 0, total_blocks }
}

impl MemoryPool {
    /// The three standard pools: `small` (a thousand 64-byte blocks), `medium` (five hundred
    /// 1 KiB blocks) and `large` (a hundred 16 KiB blocks), best fit, ten megabytes at most.
    pub fn with_default_pools() -> (r: MemoryPool)
        ensures
            pools_wf(r),
            r.pools@.len() == 3,
            r.pools@[0].name@ == "small"@ && r.pools@[0].block_size == 64 && r.pools@[0].total_blocks == 1000,
            r.pools@[1].name@ == "medium"@ && r.pools@[1].block_size == 1024 && r.pools@[1].total_blocks == 500,
            r.pools@[2].name@ == "large"@ && r.pools@[2].block_size == 16384 && r.pools@[2].total_blocks == 100,
            forall|i: int| 0 <= i < 3 ==> (#[trigger] r.pools@[i]).blocks@.len() == 0,
            r.allocation_strategy == AllocationStrategy::BestFit,
            r.max_pool_size == 10 * 1024 * 1024,
    {
        let mut pools: Vec<MemoryPoolEntry> = Vec::new();
        pools.push(pool_entry("small", 64, 1000));
        pools.push(pool_entry("medium", 1024, 500));
        pools.push(pool_entry("large", 16384, 100));
        MemoryPool { pools, allocation_strategy: AllocationStrategy::BestFit, max_pool_size: 10 * 1024 * 1024 }
    }
}

impl PerformanceManager {
    /// Empty metrics, a default scheduler and the standard pools.
    pub fn new() -> (r: PerformanceManager)
        ensures
            pools_wf(r.memory_pool),
            r.memory_pool.pools@.len() == 3,
            r.metrics.max_history_size == 1000,
            r.task_scheduler.task_queue@.len() == 0,
    {
        PerformanceManager {
            metrics: PerformanceMetrics::new(),
            task_scheduler: TaskScheduler::new(),
            memory_pool: MemoryPool::with_default_pools(),
        }
    }

    /// Takes a block from the named pool, as `MemoryPool::allocate` does.
    pub fn allocate_memory(&mut self, size: usize, pool: &str, now: u64) -> (r: Result<usize, PoolError>)
        requires
            pools_wf(old(self).memory_pool),
        ensures
            pools_wf(final(self).memory_pool),
            match pool_index(old(self).memory_pool.pools@, pool@) {
                None => r == Err::<usize, PoolError>(PoolError::PoolNotFound) && final(self).memory_pool.pools@
                    == old(self).memory_pool.pools@,
                Some(i) => {
                    let p = old(self).memory_pool.pools@[i];
                    let q = final(self).memory_pool.pools@[i];
                    &&& final(self).memory_pool.pools@ == old(self).memory_pool.pools@.update(i, q)
                    &&& r == allocate_in(p, size, now).2
                    &&& q.blocks@ == allocate_in(p, size, now).0
                    &&& q.allocated_blocks == allocate_in(p, size, now).1
                },
            },
            final(self).task_scheduler == old(self).task_scheduler,
    {
        self.memory_pool.allocate(size, pool, now)
    }

    /// Returns the block at `address` to the named pool, as
    /// `MemoryPool::deallocate_at_address` does.
    pub fn deallocate_memory(&mut self, address: usize, size: usize, pool: &str) -> (r: Result<(), PoolError>)
        requires
            pools_wf(old(self).memory_pool),
        ensures
            pools_wf(final(self).memory_pool),
            match pool_index(old(self).memory_pool.pools@, pool@) {
                None => r == Err::<(), PoolError>(PoolError::PoolNotFound) && final(self).memory_pool.pools@
                    == old(self).memory_pool.pools@,
                Some(i) => {
                    let p = old(self).memory_pool.pools@[i];
                    let q = final(self).memory_pool.pools@[i];
                    &&& final(self).memory_pool.pools@ == old(self).memory_pool.pools@.update(i, q)
                    &&& match first_block(p.blocks@, |b: MemoryBlock| b.address == address) {
                        Some(k) => if p.blocks@[k].allocated && p.blocks@[k].size == size {
                            &&& r is Ok
                            &&& q.blocks@ == p.blocks@.update(k, MemoryBlock { allocated: false, ..p.blocks@[k] })
                            &&& q.allocated_blocks == p.allocated_blocks - 1
                        } else {
                            r == Err::<(), PoolError>(PoolError::BlockMismatch) && q == p
                        },
                        None => r == Err::<(), PoolError>(PoolError::BlockMismatch) && q == p,
                    }
                },
            },
            final(self).task_scheduler == old(self).task_scheduler,
    {
        self.memory_pool.deallocate_at_address(address, size, pool)
    }

    /// Puts the queue back in priority order, then drops what lies beyond twice the
    /// concurrency limit.
    pub fn optimize_task_scheduling(&mut self)
        ensures
            ({
                let sorted = sort_by_priority(old(self).task_scheduler.task_queue@);
                let cap = old(self).task_scheduler.max_concurrent_tasks * 2;
                final(self).task_scheduler.task_queue@ == if sorted.len() > cap {
                    sorted.take(cap)
                } else {
                    sorted
                }
            }),
            final(self).task_scheduler.running_tasks == old(self).task_scheduler.running_tasks,
            final(self).memory_pool == old(self).memory_pool,
    {
        self.task_scheduler.rebalance_priorities();
        self.task_scheduler.cancel_low_priority_tasks();
    }

    /// Accounts for one event at time `now`; returns whether a rendered frame was over budget.
    pub fn handle_event(&mut self, event: PerformanceEvent, now: u64) -> (over_budget: bool)
        requires
            pools_wf(old(self).memory_pool),
            event matches PerformanceEvent::TaskCompleted { actual_duration, .. } ==> actual_duration <= now,
        ensures
            pools_wf(final(self).memory_pool),
            over_budget == (event matches PerformanceEvent::FrameRendered { frame_time, .. } && frame_time > frame_budget_ns()),
            event matches PerformanceEvent::FrameRendered { frame_time, .. } ==> final(self).metrics.frame_times@
                == bounded_push(old(self).metrics.frame_times@, frame_time, old(self).metrics.max_history_size),
            event matches PerformanceEvent::CommandProcessed { duration, .. } ==> final(self).metrics.command_times@
                == bounded_push(old(self).metrics.command_times@, duration, old(self).metrics.max_history_size),
            event matches PerformanceEvent::TaskScheduled { priority, .. } ==> final(self).task_scheduler.task_queue@.len()
                == old(self).task_scheduler.task_queue@.len() + 1
                && final(self).task_scheduler.task_queue@[first_lower(old(self).task_scheduler.task_queue@, priority, 0)].task_type
                == TaskType::ProcessCommand,
    {
        match event {
            PerformanceEvent::TaskScheduled { task_id, priority, estimated_duration } => {
                self.task_scheduler.schedule_task(task_id, priority, TaskType::ProcessCommand, estimated_duration, now);
                false
            },
            PerformanceEvent::TaskCompleted { task_id, actual_duration, success } => {
                self.task_scheduler.complete_task(task_id.as_str(), actual_duration, success, now);
                false
            },
            PerformanceEvent::MemoryAllocated { size, pool } => {
                let _ = self.memory_pool.allocate(size, pool.as_str(), now);
                false
            },
            PerformanceEvent::MemoryDeallocated { size, pool } => {
                self.memory_pool.deallocate(size, pool.as_str());
                false
            },
            PerformanceEvent::FrameRendered { duration: _, frame_time } => {
                self.metrics.add_frame_time(frame_time);
                frame_time > 16_000_000u64
            },
            PerformanceEvent::CommandProcessed { duration, complexity: _ } => {
                self.metrics.add_command_time(duration);
                false
            },
        }
    }
}


proof fn lemma_first_lower(q: Seq<ScheduledTask>, p: TaskPriority, k: int)
    requires
        0 <= k <= q.len(),
    ensures
        k <= first_lower(q, p, k) <= q.len(),
        forall|j: int| k <= j < first_lower(q, p, k) ==> rank((#[trigger] q[j]).priority) >= rank(p),
        first_lower(q, p, k) < q.len() ==> rank(q[first_lower(q, p, k)].priority) < rank(p),
    decreases q.len() - k,
{
    if k < q.len() && rank(q[k].priority) >= rank(p) {
        lemma_first_lower(q, p, k + 1);
    }
}

/// Scheduling keeps the queue in priority order: a task goes after every task of at least
/// its priority and before the first of lower priority.
pub proof fn lemma_schedule_keeps_priority_order(q: Seq<ScheduledTask>, t: ScheduledTask)
    requires
        by_priority(q),
    ensures
        by_priority(enqueue(q, t)),
        enqueue(q, t).len() == q.len() + 1,
{
    let k = first_lower(q, t.priority, 0);
    lemma_first_lower(q, t.priority, 0);
    let r = enqueue(q, t);
    assert(r =~= q.insert(k, t));
    assert forall|i: int, j: int| 0 <= i < j < r.len() implies rank(r[i].priority) >= rank(r[j].priority) by {
        if j < k {
            assert(r[i] == q[i] && r[j] == q[j]);
        } else if j == k {
            assert(r[i] == q[i] && r[j] == t);
        } else if i < k {
            assert(r[i] == q[i] && r[j] == q[j - 1]);
        } else if i == k {
            assert(r[i] == t && r[j] == q[j - 1]);
            assert(rank(q[k].priority) < rank(t.priority));
        } else {
            assert(r[i] == q[i - 1] && r[j] == q[j - 1]);
        }
    }
}


/// Rebalancing leaves the queue in priority order.
pub proof fn lemma_rebalanced_in_priority_order(q: Seq<ScheduledTask>)
    ensures
        by_priority(sort_by_priority(q)),
        sort_by_priority(q).len() == q.len(),
    decreases q.len(),
{
    if q.len() > 0 {
        lemma_rebalanced_in_priority_order(q.drop_last());
        lemma_schedule_keeps_priority_order(sort_by_priority(q.drop_last()), q.last());
    }
}

} // verus!
