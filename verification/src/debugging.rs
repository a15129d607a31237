//! Command tracing, memory sampling and the debug report built from them. Durations are in
//! nanoseconds, instants in milliseconds since the Unix epoch.
use vstd::prelude::*;
use crate::clock::now_millis;
use crate::performance::{average_spec, average_u64, sum_ns};
use crate::terminal::new_session_id;
use crate::text::str_eq;

verus! {

/// Call statistics of one function.
#[derive(Debug, Clone, Copy)]
pub struct FunctionStats {
    pub call_count: u64,
    pub total_time: u64,
    pub average_time: u64,
    pub max_time: u64,
    pub min_time: u64,
    pub self_time: u64,
}

/// Memory figures in bytes.
#[derive(Debug, Clone, Copy)]
pub struct MemoryUsage {
    pub total: usize,
    pub used: usize,
    pub free: usize,
    pub heap: usize,
    pub stack: usize,
}

#[derive(Debug, Clone, Copy)]
pub struct MemorySample {
    pub timestamp: i64,
    pub heap_size: usize,
    pub stack_size: usize,
    pub allocations: u64,
    pub deallocations: u64,
}

#[derive(Debug, Clone, Copy, PartialEq, Eq, Structural)]
pub enum TraceLevel {
    Off,
    Basic,
    Detailed,
    Verbose,
}

#[derive(Debug, Clone)]
pub struct TraceFilter {
    pub field: String,
    pub pattern: String,
    /// Whether matching entries are kept (true) or left out.
    pub inclusive: bool,
}

#[derive(Debug, Clone, Copy, PartialEq, Eq, Structural)]
pub enum MetricType {
    CpuUsage,
    MemoryUsage,
    DiskUsage,
    NetworkLatency,
    CommandLatency,
    RenderFps,
}

#[derive(Debug, Clone, Copy, PartialEq, Eq, Structural)]
pub enum NetworkDirection {
    Upload,
    Download,
}

/// One traced command; `exit_code` is -1 until it completes. `metadata` maps names to
/// text, a name at most once.
#[derive(Debug)]
pub struct TraceEntry {
    pub id: String,
    pub timestamp: i64,
    pub level: TraceLevel,
    pub session_id: String,
    pub command: String,
    pub input: String,
    pub output: String,
    pub exit_code: i32,
    pub duration: u64,
    pub environment: Vec<(String, String)>,
    pub working_directory: String,
    pub metadata: Vec<(String, String)>,
}

#[derive(Debug)]
pub struct CommandTracer {
    pub enabled: bool,
    pub trace_level: TraceLevel,
    pub max_entries: usize,
    pub entries: Vec<TraceEntry>,
    pub filters: Vec<TraceFilter>,
}

#[derive(Debug)]
pub struct Profiler {
    pub enabled: bool,
    pub max_samples: usize,
    pub function_stats: Vec<(String, FunctionStats)>,
    pub memory_samples: Vec<MemorySample>,
}

/// Byte counters by name.
#[derive(Debug)]
pub struct PerformanceMonitor {
    pub enabled: bool,
    pub metrics: Vec<(String, MetricValue)>,
    pub counters: Vec<(String, u64)>,
}

/// The latest reading of a metric: an `f64` held as its bits, and when it was taken.
#[derive(Debug, Clone, Copy, PartialEq, Eq, Structural)]
pub struct MetricValue {
    pub value_bits: u64,
    pub timestamp: i64,
}

#[derive(Debug, Clone, Copy)]
pub struct MemorySummary {
    pub initial_usage: usize,
    pub peak_usage: usize,
    pub final_usage: usize,
    pub total_allocations: u64,
    pub total_deallocations: u64,
    pub leaks_detected: usize,
}

#[derive(Debug)]
pub struct CommandSummary {
    pub total_commands: u64,
    pub successful_commands: u64,
    pub failed_commands: u64,
    pub most_common_commands: Vec<(String, u64)>,
    pub slowest_commands: Vec<(String, u64)>,
}

#[derive(Debug)]
pub struct ErrorSummary {
    pub total_errors: u64,
    pub error_types: Vec<(String, u64)>,
    pub recent_errors: Vec<String>,
}

/// The integer part of the performance summary.
#[derive(Debug, Clone, Copy)]
pub struct PerformanceSummary {
    pub total_commands: u64,
    pub average_command_time: u128,
    /// `f64` bits.
    pub cpu_peak: u64,
    pub memory_peak: usize,
    /// `f64` bits.
    pub render_fps_average: u64,
}

#[derive(Debug)]
pub struct DebugReport {
    pub timestamp: i64,
    pub session_id: String,
    pub performance_summary: PerformanceSummary,
    pub memory_summary: MemorySummary,
    pub command_summary: CommandSummary,
    pub error_summary: ErrorSummary,
}

/// Text pairs as plain values.
pub open spec fn pairs_view(v: Seq<(String, String)>) -> Seq<(Seq<char>, Seq<char>)> {
    v.map_values(|p: (String, String)| (p.0@, p.1@))
}

/// Named counts as plain values.
pub open spec fn counts_view(v: Seq<(String, u64)>) -> Seq<(Seq<char>, u64)> {
    v.map_values(|p: (String, u64)| (p.0@, p.1))
}

/// First index at or after `i` whose name is `k` (or the length).
pub open spec fn find_name<V>(m: Seq<(Seq<char>, V)>, k: Seq<char>, i: int) -> int
    decreases m.len() - i,
{
    if 0 <= i < m.len() && m[i].0 != k {
        find_name(m, k, i + 1)
    } else if i < 0 {
        m.len() as int
    } else {
        i
    }
}

/// The value under `k`.
pub open spec fn get_named<V>(m: Seq<(Seq<char>, V)>, k: Seq<char>) -> Option<V> {
    let i = find_name(m, k, 0);
    if i < m.len() {
        Some(m[i].1)
    } else {
        None
    }
}

/// `k` set to `v`, in place when present and appended otherwise.
pub open spec fn put_named<V>(m: Seq<(Seq<char>, V)>, k: Seq<char>, v: V) -> Seq<(Seq<char>, V)> {
    let i = find_name(m, k, 0);
    if i < m.len() {
        m.update(i, (k, v))
    } else {
        m.push((k, v))
    }
}

/// Occurrences of each text of `s`, in order of first occurrence.
pub open spec fn tally(s: Seq<Seq<char>>) -> Seq<(Seq<char>, u64)>
    decreases s.len(),
{
    if s.len() == 0 {
        seq![]
    } else {
        let t = tally(s.drop_last());
        let c = s.last();
        match get_named(t, c) {
            Some(n) => put_named(t, c, (n + 1) as u64),
            None => t.push((c, 1u64)),
        }
    }
}

/// First index at or after `k` whose count is below `c` (or the length).
pub open spec fn first_below(s: Seq<(Seq<char>, u64)>, c: u64, k: int) -> int
    decreases s.len() - k,
{
    if 0 <= k < s.len() && s[k].1 >= c {
        first_below(s, c, k + 1)
    } else {
        k
    }
}

/// Stable sort by descending count.
pub open spec fn sort_desc(s: Seq<(Seq<char>, u64)>) -> Seq<(Seq<char>, u64)>
    decreases s.len(),
{
    if s.len() == 0 {
        s
    } else {
        let r = sort_desc(s.drop_last());
        let k = first_below(r, s.last().1, 0);
        r.take(k) + seq![s.last()] + r.skip(k)
    }
}

/// At most the first ten.
pub open spec fn top10<A>(s: Seq<A>) -> Seq<A> {
    if s.len() > 10 {
        s.take(10)
    } else {
        s
    }
}

pub open spec fn commands_of(s: Seq<TraceEntry>) -> Seq<Seq<char>> {
    s.map_values(|e: TraceEntry| e.command@)
}

pub open spec fn count_succeeded(s: Seq<TraceEntry>) -> nat
    decreases s.len(),
{
    if s.len() == 0 {
        0
    } else {
        count_succeeded(s.drop_last()) + if s.last().exit_code == 0 { 1nat } else { 0nat }
    }
}

pub open spec fn count_failed(s: Seq<TraceEntry>) -> nat
    decreases s.len(),
{
    if s.len() == 0 {
        0
    } else {
        count_failed(s.drop_last()) + if s.last().exit_code != 0 && s.last().exit_code != -1 {
            1nat
        } else {
            0nat
        }
    }
}

/// The completed entries as command and duration, in trace order.
pub open spec fn completed(s: Seq<TraceEntry>) -> Seq<(Seq<char>, u64)>
    decreases s.len(),
{
    if s.len() == 0 {
        seq![]
    } else if s.last().exit_code != -1 {
        completed(s.drop_last()).push((s.last().command@, s.last().duration))
    } else {
        completed(s.drop_last())
    }
}

pub open spec fn durations(s: Seq<(Seq<char>, u64)>) -> Seq<u64> {
    s.map_values(|p: (Seq<char>, u64)| p.1)
}

/// The error recorded on an entry.
pub open spec fn error_of(e: TraceEntry) -> Option<Seq<char>> {
    get_named(pairs_view(e.metadata@), "error"@)
}

/// The recorded errors, in trace order.
pub open spec fn errors(s: Seq<TraceEntry>) -> Seq<Seq<char>>
    decreases s.len(),
{
    if s.len() == 0 {
        seq![]
    } else {
        match error_of(s.last()) {
            Some(err) => errors(s.drop_last()).push(err),
            None => errors(s.drop_last()),
        }
    }
}

/// Drops the oldest thousand once `s` is longer than `max`.
pub open spec fn capped<A>(s: Seq<A>, max: int) -> Seq<A> {
    if s.len() > max {
        s.skip(1000)
    } else {
        s
    }
}

/// The last entry of `s` at or before `j` that is for `session` and `command` and still
/// running (or -1).
pub open spec fn open_entry(s: Seq<TraceEntry>, session: Seq<char>, command: Seq<char>, j: int) -> int
    decreases j + 1,
{
    if j < 0 || j >= s.len() {
        -1
    } else if s[j].session_id@ == session && s[j].command@ == command && s[j].exit_code == -1 {
        j
    } else {
        open_entry(s, session, command, j - 1)
    }
}

/// A new entry for a command that has started: still running, with nothing recorded yet.
pub open spec fn started_entry(
    e: TraceEntry,
    id: String,
    session_id: String,
    command: String,
    timestamp: i64,
    level: TraceLevel,
    environment: Vec<(String, String)>,
    working_directory: String,
) -> bool {
    &&& e.id == id
    &&& e.session_id == session_id
    &&& e.command == command
    &&& e.timestamp == timestamp
    &&& e.level == level
    &&& e.environment == environment
    &&& e.working_directory == working_directory
    &&& e.exit_code == -1
    &&& e.duration == 0
    &&& e.input@.len() == 0
    &&& e.output@.len() == 0
    &&& e.metadata@.len() == 0
}

/// Metric readings as plain values.
pub open spec fn metrics_view(v: Seq<(String, MetricValue)>) -> Seq<(Seq<char>, MetricValue)> {
    v.map_values(|p: (String, MetricValue)| (p.0@, p.1))
}

/// The bits of `60.0f64`.
pub open spec fn sixty_fps_bits() -> u64 {
    0x404e_0000_0000_0000u64
}

/// The name a metric is recorded under.
pub open spec fn metric_name_spec(m: MetricType) -> Seq<char> {
    match m {
        MetricType::CpuUsage => "cpu_usage"@,
        MetricType::MemoryUsage => "memory_usage"@,
        MetricType::DiskUsage => "disk_usage"@,
        MetricType::NetworkLatency => "network_latency"@,
        MetricType::CommandLatency => "command_latency"@,
        MetricType::RenderFps => "render_fps"@,
    }
}

/// The counter a transfer is added to.
pub open spec fn counter_name(d: NetworkDirection) -> Seq<char> {
    match d {
        NetworkDirection::Upload => "network_upload_bytes"@,
        NetworkDirection::Download => "network_download_bytes"@,
    }
}

/// Heap plus stack of a sample.
pub open spec fn sample_total(s: MemorySample) -> int {
    s.heap_size + s.stack_size
}

pub open spec fn samples_fit(s: Seq<MemorySample>) -> bool {
    forall|i: int| 0 <= i < s.len() ==> sample_total(#[trigger] s[i]) <= usize::MAX
}

pub open spec fn peak_of(s: Seq<MemorySample>) -> int
    decreases s.len(),
{
    if s.len() == 0 {
        0
    } else {
        let p = peak_of(s.drop_last());
        if sample_total(s.last()) > p {
            sample_total(s.last())
        } else {
            p
        }
    }
}

/// The name a metric is recorded under.
pub fn metric_name(metric_type: MetricType) -> (r: &'static str)
    ensures
        r@ == metric_name_spec(metric_type),
{
    match metric_type {
        MetricType::CpuUsage => "cpu_usage",
        MetricType::MemoryUsage => "memory_usage",
        MetricType::DiskUsage => "disk_usage",
        MetricType::NetworkLatency => "network_latency",
        MetricType::CommandLatency => "command_latency",
        MetricType::RenderFps => "render_fps",
    }
}

fn find_name_exec<V>(m: &Vec<(String, V)>, k: &str) -> (r: usize)
    ensures
        r == find_name(m@.map_values(|p: (String, V)| (p.0@, p.1)), k@, 0),
        r <= m@.len(),
{
    let ghost mv = m@.map_values(|p: (String, V)| (p.0@, p.1));
    let mut i: usize = 0;
    while i < m.len()
        invariant
            i <= m@.len(),
            mv == m@.map_values(|p: (String, V)| (p.0@, p.1)),
            find_name(mv, k@, 0) == find_name(mv, k@, i as int),
        decreases m@.len() - i,
    {
        assert(mv[i as int].0 == m@[i as int].0@);
        if str_eq(m[i].0.as_str(), k) {
            return i;
        }
        i = i + 1;
    }
    i
}

/// Sets `k` to `v` in a list of text pairs.
fn put_pair(m: &mut Vec<(String, String)>, k: String, v: String)
    ensures
        pairs_view(final(m)@) == put_named(pairs_view(old(m)@), k@, v@),
{
    let i = find_name_exec(m, k.as_str());
    assert(m@.map_values(|p: (String, String)| (p.0@, p.1@)) == pairs_view(m@));
    let ghost kv = (k@, v@);
    proof {
        let a = m@.map_values(|p: (String, String)| (p.0@, p.1));
        assert forall|j: int| 0 <= j < m@.len() implies (#[trigger] a[j]).0 == pairs_view(m@)[j].0 by {}
        lemma_find_name_keys(a, pairs_view(m@), k@, 0);
    }
    if i < m.len() {
        m.set(i, (k, v));
        assert(pairs_view(m@) =~= pairs_view(old(m)@).update(i as int, kv));
    } else {
        m.push((k, v));
        assert(pairs_view(m@) =~= pairs_view(old(m)@).push(kv));
    }
}

/// `find_name` depends on the names alone.
proof fn lemma_find_name_keys<V, W>(a: Seq<(Seq<char>, V)>, b: Seq<(Seq<char>, W)>, k: Seq<char>, i: int)
    requires
        a.len() == b.len(),
        forall|j: int| 0 <= j < a.len() ==> (#[trigger] a[j]).0 == b[j].0,
    ensures
        find_name(a, k, i) == find_name(b, k, i),
    decreases a.len() - i,
{
    if 0 <= i < a.len() && a[i].0 != k {
        lemma_find_name_keys(a, b, k, i + 1);
    }
}

/// Adds `x` to counter `k`, starting it at zero.
fn bump_counter(m: &mut Vec<(String, u64)>, k: &str, x: u64)
    requires
        match get_named(counts_view(old(m)@), k@) {
            Some(n) => n + x <= u64::MAX,
            None => true,
        },
    ensures
        counts_view(final(m)@) == put_named(
            counts_view(old(m)@),
            k@,
            match get_named(counts_view(old(m)@), k@) {
                Some(n) => (n + x) as u64,
                None => x,
            },
        ),
{
    let i = find_name_exec(m, k);
    assert(m@.map_values(|p: (String, u64)| (p.0@, p.1)) == counts_view(m@));
    proof {
        lemma_find_name_range(counts_view(m@), k@, 0);
    }
    if i < m.len() {
        let n = m[i].1;
        assert(counts_view(m@)[i as int].1 == n);
        let name = m[i].0.clone();
        m.set(i, (name, n + x));
        assert(counts_view(m@) =~= counts_view(old(m)@).update(i as int, (k@, (n + x) as u64)));
    } else {
        m.push((String::from_str(k), x));
        assert(counts_view(m@) =~= counts_view(old(m)@).push((k@, x)));
    }
}

proof fn lemma_tally_bounded(s: Seq<Seq<char>>)
    ensures
        forall|j: int| 0 <= j < tally(s).len() ==> (#[trigger] tally(s)[j]).1 <= s.len(),
    decreases s.len(),
{
    if s.len() > 0 {
        let t = tally(s.drop_last());
        let c = s.last();
        lemma_tally_bounded(s.drop_last());
        lemma_find_name_range(t, c, 0);
        let i = find_name(t, c, 0);
        if i < t.len() {
            assert(get_named(t, c) == Some(t[i].1));
            assert(tally(s) == t.update(i, (c, (t[i].1 + 1) as u64)));
        } else {
            assert(tally(s) == t.push((c, 1u64)));
        }
    }
}

fn first_below_exec(out: &Vec<(String, u64)>, c: u64) -> (r: usize)
    ensures
        r == first_below(counts_view(out@), c, 0),
        r <= out@.len(),
{
    let mut k: usize = 0;
    while k < out.len() && out[k].1 >= c
        invariant
            0 <= k <= out@.len(),
            first_below(counts_view(out@), c, 0) == first_below(counts_view(out@), c, k as int),
        decreases out@.len() - k,
    {
        k = k + 1;
    }
    k
}

/// Largest count first, keeping the order of equal counts, then at most ten.
fn top_by_count(v: Vec<(String, u64)>) -> (r: Vec<(String, u64)>)
    ensures
        counts_view(r@) == top10(sort_desc(counts_view(v@))),
{
    let ghost v0 = counts_view(v@);
    let ghost n = v@.len();
    let mut v = v;
    let mut out: Vec<(String, u64)> = Vec::new();
    let ghost mut i: int = 0;
    while v.len() > 0
        invariant
            0 <= i <= n,
            i + v@.len() == n,
            v0.len() == n,
            counts_view(v@) == v0.skip(i),
            counts_view(out@) == sort_desc(v0.take(i)),
        decreases v@.len(),
    {
        let ghost vx = v@;
        let x = v.remove(0);
        assert(counts_view(vx)[0] == (x.0@, x.1));
        let ghost before = counts_view(out@);
        assert(v0.take(i + 1).drop_last() =~= v0.take(i));
        assert(counts_view(v@) =~= counts_view(vx).skip(1));
        assert(counts_view(vx).skip(1) =~= v0.skip(i + 1));
        let k = first_below_exec(&out, x.1);
        let ghost xv = (x.0@, x.1);
        out.insert(k, x);
        assert(counts_view(out@) =~= before.take(k as int) + seq![xv] + before.skip(k as int));
        proof {
            i = i + 1;
        }
    }
    assert(v0.take(i) =~= v0);
    if out.len() > 10 {
        out.truncate(10);
        assert(counts_view(out@) =~= sort_desc(v0).take(10));
    }
    out
}

/// Occurrences of each text, in order of first occurrence.
fn tally_exec(items: &Vec<String>) -> (r: Vec<(String, u64)>)
    ensures
        counts_view(r@) == tally(items@.map_values(|s: String| s@)),
{
    let ghost s = items@.map_values(|s: String| s@);
    let mut r: Vec<(String, u64)> = Vec::new();
    let mut i: usize = 0;
    while i < items.len()
        invariant
            i <= items@.len(),
            s == items@.map_values(|s: String| s@),
            counts_view(r@) == tally(s.take(i as int)),
        decreases items@.len() - i,
    {
        assert(s.take(i + 1).drop_last() =~= s.take(i as int));
        assert(s.take(i + 1).last() == items@[i as int]@);
        proof {
            lemma_tally_bounded(s.take(i as int));
            let t = tally(s.take(i as int));
            let c = items@[i as int]@;
            if get_named(t, c) is Some {
                let j = find_name(t, c, 0);
                lemma_find_name_range(t, c, 0);
                assert(t[j].1 <= i);
            }
        }
        bump_counter(&mut r, items[i].as_str(), 1);
        i = i + 1;
    }
    assert(s.take(i as int) =~= s);
    r
}

proof fn lemma_find_name_range<V>(m: Seq<(Seq<char>, V)>, k: Seq<char>, i: int)
    requires
        0 <= i,
    ensures
        i <= find_name(m, k, i) <= m.len() || find_name(m, k, i) == i,
        find_name(m, k, i) < m.len() ==> m[find_name(m, k, i)].0 == k,
    decreases m.len() - i,
{
    if 0 <= i < m.len() && m[i].0 != k {
        lemma_find_name_range(m, k, i + 1);
    }
}

impl Profiler {
    pub fn new() -> (r: Profiler)
        ensures
            !r.enabled,
            r.max_samples == 10000,
            r.function_stats@.len() == 0,
            r.memory_samples@.len() == 0,
    {
        Profiler { enabled: false, max_samples: 10000, function_stats: Vec::new(), memory_samples: Vec::new() }
    }

    /// Keeps a sample; past the limit the oldest thousand go.
    pub fn add_memory_sample(&mut self, sample: MemorySample)
        requires
            old(self).memory_samples@.len() + 1 > old(self).max_samples ==> old(self).memory_samples@.len() + 1
                >= 1000,
        ensures
            final(self).memory_samples@ == capped(
                old(self).memory_samples@.push(sample),
                old(self).max_samples as int,
            ),
            final(self).max_samples == old(self).max_samples,
            final(self).enabled == old(self).enabled,
    {
        self.memory_samples.push(sample);
        if self.memory_samples.len() > self.max_samples {
            let tail = self.memory_samples.split_off(1000);
            self.memory_samples = tail;
        }
    }

    /// The largest heap plus stack seen (zero without samples).
    pub fn get_peak_memory(&self) -> (r: usize)
        requires
            samples_fit(self.memory_samples@),
        ensures
            r == peak_of(self.memory_samples@),
    {
        let mut best: usize = 0;
        let mut i: usize = 0;
        while i < self.memory_samples.len()
            invariant
                i <= self.memory_samples@.len(),
                samples_fit(self.memory_samples@),
                best == peak_of(self.memory_samples@.take(i as int)),
            decreases self.memory_samples@.len() - i,
        {
            assert(self.memory_samples@.take(i + 1).drop_last() =~= self.memory_samples@.take(i as int));
            let s = self.memory_samples[i];
            assert(sample_total(self.memory_samples@[i as int]) <= usize::MAX);
            let t = s.heap_size + s.stack_size;
            if t > best {
                best = t;
            }
            i = i + 1;
        }
        assert(self.memory_samples@.take(i as int) =~= self.memory_samples@);
        best
    }

    /// Heap plus stack of the newest sample (zero without samples).
    pub fn get_current_memory(&self) -> (r: usize)
        requires
            samples_fit(self.memory_samples@),
        ensures
            r == (if self.memory_samples@.len() == 0 {
                0
            } else {
                sample_total(self.memory_samples@.last())
            }),
    {
        let n = self.memory_samples.len();
        if n == 0 {
            0
        } else {
            let s = self.memory_samples[n - 1];
            assert(sample_total(self.memory_samples@[n - 1]) <= usize::MAX);
            s.heap_size + s.stack_size
        }
    }

    /// Heap plus stack of the oldest sample kept (zero without samples).
    pub fn get_initial_memory(&self) -> (r: usize)
        requires
            samples_fit(self.memory_samples@),
        ensures
            r == (if self.memory_samples@.len() == 0 {
                0
            } else {
                sample_total(self.memory_samples@[0])
            }),
    {
        if self.memory_samples.len() == 0 {
            0
        } else {
            let s = self.memory_samples[0];
            assert(sample_total(self.memory_samples@[0]) <= usize::MAX);
            s.heap_size + s.stack_size
        }
    }
}

impl CommandTracer {
    pub fn new() -> (r: CommandTracer)
        ensures
            !r.enabled,
            r.trace_level == TraceLevel::Basic,
            r.max_entries == 10000,
            r.entries@.len() == 0,
            r.filters@.len() == 0,
    {
        CommandTracer {
            enabled: false,
            trace_level: TraceLevel::Basic,
            max_entries: 10000,
            entries: Vec::new(),
            filters: Vec::new(),
        }
    }

    /// Records a command that started, still running; past the limit the oldest thousand
    /// entries go. The caller gives the entry's id, environment and directory.
    pub fn add_command_started(
        &mut self,
        id: String,
        session_id: String,
        command: String,
        timestamp: i64,
        environment: Vec<(String, String)>,
        working_directory: String,
    )
        requires
            old(self).entries@.len() + 1 > old(self).max_entries ==> old(self).entries@.len() + 1 >= 1000,
        ensures
            exists|e: TraceEntry|
                #[trigger] started_entry(
                    e,
                    id,
                    session_id,
                    command,
                    timestamp,
                    old(self).trace_level,
                    environment,
                    working_directory,
                ) && final(self).entries@ == capped(
                    old(self).entries@.push(e),
                    old(self).max_entries as int,
                ),
            final(self).max_entries == old(self).max_entries,
            final(self).enabled == old(self).enabled,
            final(self).trace_level == old(self).trace_level,
    {
        let entry = TraceEntry {
            id,
            timestamp,
            level: self.trace_level,
            session_id,
            command,
            input: String::new(),
            output: String::new(),
            exit_code: -1,
            duration: 0,
            environment,
            working_directory,
            metadata: Vec::new(),
        };
        let ghost e = entry;
        assert(started_entry(e, id, session_id, command, timestamp, self.trace_level, environment, working_directory));
        self.entries.push(entry);
        if self.entries.len() > self.max_entries {
            let tail = self.entries.split_off(1000);
            self.entries = tail;
        }
    }

    /// Completes the newest running entry for this session and command; without one nothing
    /// changes.
    pub fn add_command_completed(&mut self, session_id: &str, command: &str, duration: u64, exit_code: i32)
        ensures
            ({
                let j = open_entry(old(self).entries@, session_id@, command@, old(self).entries@.len() - 1);
                &&& final(self).entries@.len() == old(self).entries@.len()
                &&& forall|k: int| 0 <= k < old(self).entries@.len() && k != j ==> #[trigger] final(self).entries@[k] == old(self).entries@[k]
                &&& j >= 0 ==> {
                    &&& final(self).entries@[j].exit_code == exit_code
                    &&& final(self).entries@[j].duration == duration
                    &&& final(self).entries@[j].command@ == command@
                    &&& final(self).entries@[j].session_id@ == session_id@
                    &&& final(self).entries@[j].metadata == old(self).entries@[j].metadata
                }
            }),
            final(self).max_entries == old(self).max_entries,
            final(self).enabled == old(self).enabled,
    {
        let ghost s = self.entries@;
        let mut j: usize = self.entries.len();
        while j > 0
            invariant
                j <= s.len(),
                self.entries@ == s,
                s == old(self).entries@,
                self.max_entries == old(self).max_entries,
                self.enabled == old(self).enabled,
                open_entry(s, session_id@, command@, s.len() - 1) == open_entry(s, session_id@, command@, j - 1),
            decreases j,
        {
            let e = &self.entries[j - 1];
            if str_eq(e.session_id.as_str(), session_id) && str_eq(e.command.as_str(), command) && e.exit_code == -1 {
                let mut entries = Vec::new();
                std::mem::swap(&mut entries, &mut self.entries);
                let mut entry = entries.remove(j - 1);
                entry.duration = duration;
                entry.exit_code = exit_code;
                entries.insert(j - 1, entry);
                assert(entries@ =~= s.update(j - 1, entry));
                self.entries = entries;
                return;
            }
            j = j - 1;
        }
    }

    /// Records an error and its context on the newest entry; without entries nothing changes.
    pub fn add_error(&mut self, error: String, context: String)
        ensures
            final(self).entries@.len() == old(self).entries@.len(),
            forall|k: int| 0 <= k < old(self).entries@.len() - 1 ==> #[trigger] final(self).entries@[k] == old(self).entries@[k],
            old(self).entries@.len() > 0 ==> {
                let o = old(self).entries@.last();
                let f = final(self).entries@.last();
                &&& pairs_view(f.metadata@) == put_named(
                    put_named(pairs_view(o.metadata@), "error"@, error@),
                    "context"@,
                    context@,
                )
                &&& f.command == o.command
                &&& f.session_id == o.session_id
                &&& f.exit_code == o.exit_code
                &&& f.duration == o.duration
            },
            final(self).max_entries == old(self).max_entries,
    {
        let n = self.entries.len();
        if n > 0 {
            let mut entries = Vec::new();
            std::mem::swap(&mut entries, &mut self.entries);
            let mut entry = entries.remove(n - 1);
            put_pair(&mut entry.metadata, String::from_str("error"), error);
            put_pair(&mut entry.metadata, String::from_str("context"), context);
            entries.push(entry);
            assert(forall|k: int| 0 <= k < n - 1 ==> entries@[k] == old(self).entries@[k]);
            self.entries = entries;
        }
    }

    pub fn get_command_count(&self) -> (r: u64)
        ensures
            r == self.entries@.len(),
    {
        self.entries.len() as u64
    }

    /// Entries that exited with status zero.
    pub fn get_successful_command_count(&self) -> (r: u64)
        ensures
            r == count_succeeded(self.entries@),
    {
        let mut n: u64 = 0;
        let mut i: usize = 0;
        while i < self.entries.len()
            invariant
                i <= self.entries@.len(),
                n == count_succeeded(self.entries@.take(i as int)),
                n <= i,
            decreases self.entries@.len() - i,
        {
            assert(self.entries@.take(i + 1).drop_last() =~= self.entries@.take(i as int));
            if self.entries[i].exit_code == 0 {
                n = n + 1;
            }
            i = i + 1;
        }
        assert(self.entries@.take(i as int) =~= self.entries@);
        n
    }

    /// Entries that completed with a status other than zero.
    pub fn get_failed_command_count(&self) -> (r: u64)
        ensures
            r == count_failed(self.entries@),
    {
        let mut n: u64 = 0;
        let mut i: usize = 0;
        while i < self.entries.len()
            invariant
                i <= self.entries@.len(),
                n == count_failed(self.entries@.take(i as int)),
                n <= i,
            decreases self.entries@.len() - i,
        {
            assert(self.entries@.take(i + 1).drop_last() =~= self.entries@.take(i as int));
            let c = self.entries[i].exit_code;
            if c != 0 && c != -1 {
                n = n + 1;
            }
            i = i + 1;
        }
        assert(self.entries@.take(i as int) =~= self.entries@);
        n
    }

    fn completed_exec(&self) -> (r: Vec<(String, u64)>)
        ensures
            counts_view(r@) == completed(self.entries@),
    {
        let mut r: Vec<(String, u64)> = Vec::new();
        let mut i: usize = 0;
        while i < self.entries.len()
            invariant
                i <= self.entries@.len(),
                counts_view(r@) == completed(self.entries@.take(i as int)),
            decreases self.entries@.len() - i,
        {
            assert(self.entries@.take(i + 1).drop_last() =~= self.entries@.take(i as int));
            let e = &self.entries[i];
            if e.exit_code != -1 {
                let ghost before = counts_view(r@);
                r.push((e.command.clone(), e.duration));
                assert(counts_view(r@) =~= before.push((e.command@, e.duration)));
            }
            i = i + 1;
        }
        assert(self.entries@.take(i as int) =~= self.entries@);
        r
    }

    /// The mean duration of the completed entries (zero when none completed).
    pub fn get_average_command_time(&self) -> (r: u128)
        requires
            completed(self.entries@).len() <= u32::MAX,
            sum_ns(durations(completed(self.entries@))) / 1_000_000_000 <= u64::MAX,
        ensures
            r == average_spec(durations(completed(self.entries@))),
    {
        let c = self.completed_exec();
        let mut d: Vec<u64> = Vec::new();
        let mut i: usize = 0;
        while i < c.len()
            invariant
                i <= c@.len(),
                d@ == durations(counts_view(c@)).take(i as int),
            decreases c@.len() - i,
        {
            d.push(c[i].1);
            assert(d@ =~= durations(counts_view(c@)).take(i + 1));
            i = i + 1;
        }
        assert(d@ =~= durations(counts_view(c@)));
        average_u64(&d)
    }

    /// The ten most frequent commands with their counts, most frequent first.
    pub fn get_most_common_commands(&self) -> (r: Vec<(String, u64)>)
        ensures
            counts_view(r@) == top10(sort_desc(tally(commands_of(self.entries@)))),
    {
        let mut cmds: Vec<String> = Vec::new();
        let mut i: usize = 0;
        while i < self.entries.len()
            invariant
                i <= self.entries@.len(),
                cmds@.map_values(|s: String| s@) == commands_of(self.entries@).take(i as int),
            decreases self.entries@.len() - i,
        {
            let ghost before = cmds@;
            let c = self.entries[i].command.clone();
            cmds.push(c);
            assert(cmds@ == before.push(c));
            assert(cmds@.map_values(|s: String| s@) =~= before.map_values(|s: String| s@).push(c@));
            assert(commands_of(self.entries@).take(i + 1) =~= commands_of(self.entries@).take(i as int).push(c@));
            i = i + 1;
        }
        assert(cmds@.map_values(|s: String| s@) =~= commands_of(self.entries@));
        let t = tally_exec(&cmds);
        top_by_count(t)
    }

    /// The ten slowest completed commands, slowest first.
    pub fn get_slowest_commands(&self) -> (r: Vec<(String, u64)>)
        ensures
            counts_view(r@) == top10(sort_desc(completed(self.entries@))),
    {
        let c = self.completed_exec();
        top_by_count(c)
    }

    fn error_at(&self, i: usize) -> (r: Option<String>)
        requires
            i < self.entries@.len(),
        ensures
            match r {
                Some(s) => error_of(self.entries@[i as int]) == Some(s@),
                None => error_of(self.entries@[i as int]) is None,
            },
    {
        let m = &self.entries[i].metadata;
        let j = find_name_exec(m, "error");
        proof {
            let a = m@.map_values(|p: (String, String)| (p.0@, p.1));
            assert forall|k: int| 0 <= k < m@.len() implies (#[trigger] a[k]).0 == pairs_view(m@)[k].0 by {}
            lemma_find_name_keys(a, pairs_view(m@), "error"@, 0);
        }
        if j < m.len() {
            assert(pairs_view(m@)[j as int].1 == m@[j as int].1@);
            Some(m[j].1.clone())
        } else {
            None
        }
    }

    fn errors_exec(&self) -> (r: Vec<String>)
        ensures
            r@.map_values(|s: String| s@) == errors(self.entries@),
    {
        let mut r: Vec<String> = Vec::new();
        let mut i: usize = 0;
        while i < self.entries.len()
            invariant
                i <= self.entries@.len(),
                r@.map_values(|s: String| s@) == errors(self.entries@.take(i as int)),
            decreases self.entries@.len() - i,
        {
            assert(self.entries@.take(i + 1).drop_last() =~= self.entries@.take(i as int));
            match self.error_at(i) {
                Some(e) => {
                    let ghost before = r@.map_values(|s: String| s@);
                    let ghost ev = e@;
                    r.push(e);
                    assert(r@.map_values(|s: String| s@) =~= before.push(ev));
                },
                None => {},
            }
            i = i + 1;
        }
        assert(self.entries@.take(i as int) =~= self.entries@);
        r
    }

    /// Entries that carry an error.
    pub fn get_error_count(&self) -> (r: u64)
        ensures
            r == errors(self.entries@).len(),
    {
        let e = self.errors_exec();
        proof {
            lemma_errors_len(self.entries@);
        }
        e.len() as u64
    }

    /// How often each error text occurs, in order of first occurrence.
    pub fn get_error_types(&self) -> (r: Vec<(String, u64)>)
        ensures
            counts_view(r@) == tally(errors(self.entries@)),
    {
        let e = self.errors_exec();
        tally_exec(&e)
    }

    /// The ten newest errors, newest first.
    pub fn get_recent_errors(&self) -> (r: Vec<String>)
        ensures
            r@.map_values(|s: String| s@) == top10(errors(self.entries@).reverse()),
    {
        let e = self.errors_exec();
        let ghost ev = e@.map_values(|s: String| s@);
        let mut r: Vec<String> = Vec::new();
        let mut k: usize = e.len();
        while k > 0 && r.len() < 10
            invariant
                k <= e@.len(),
                r@.len() == e@.len() - k,
                r@.len() <= 10,
                ev == e@.map_values(|s: String| s@),
                r@.map_values(|s: String| s@) == ev.reverse().take(e@.len() - k),
            decreases k,
        {
            r.push(e[k - 1].clone());
            assert(r@.map_values(|s: String| s@) =~= ev.reverse().take(e@.len() - k + 1));
            k = k - 1;
        }
        assert(r@.map_values(|s: String| s@) =~= top10(ev.reverse()));
        r
    }
}

proof fn lemma_errors_len(s: Seq<TraceEntry>)
    ensures
        errors(s).len() <= s.len(),
    decreases s.len(),
{
    if s.len() > 0 {
        lemma_errors_len(s.drop_last());
    }
}

impl PerformanceMonitor {
    pub fn new() -> (r: PerformanceMonitor)
        ensures
            !r.enabled,
            r.metrics@.len() == 0,
            r.counters@.len() == 0,
    {
        PerformanceMonitor { enabled: false, metrics: Vec::new(), counters: Vec::new() }
    }

    fn metric_index(&self, name: &str) -> (r: usize)
        ensures
            r == find_name(metrics_view(self.metrics@), name@, 0),
            r <= self.metrics@.len(),
    {
        let i = find_name_exec(&self.metrics, name);
        assert(self.metrics@.map_values(|p: (String, MetricValue)| (p.0@, p.1)) == metrics_view(self.metrics@));
        i
    }

    fn put_metric(&mut self, name: &str, v: MetricValue)
        ensures
            metrics_view(final(self).metrics@) == put_named(metrics_view(old(self).metrics@), name@, v),
            final(self).counters == old(self).counters,
    {
        let i = self.metric_index(name);
        proof {
            lemma_find_name_range(metrics_view(self.metrics@), name@, 0);
        }
        if i < self.metrics.len() {
            self.metrics.set(i, (String::from_str(name), v));
            assert(metrics_view(self.metrics@) =~= metrics_view(old(self).metrics@).update(i as int, (name@, v)));
        } else {
            self.metrics.push((String::from_str(name), v));
            assert(metrics_view(self.metrics@) =~= metrics_view(old(self).metrics@).push((name@, v)));
        }
    }

    /// Refreshes the `cpu` and `memory` readings, both zero until the platform is queried.
    pub fn update_metrics(&mut self, now: i64)
        ensures
            metrics_view(final(self).metrics@) == put_named(
                put_named(metrics_view(old(self).metrics@), "cpu"@, MetricValue { value_bits: 0, timestamp: now }),
                "memory"@,
                MetricValue { value_bits: 0, timestamp: now },
            ),
            final(self).counters == old(self).counters,
    {
        self.put_metric("cpu", MetricValue { value_bits: 0, timestamp: now });
        self.put_metric("memory", MetricValue { value_bits: 0, timestamp: now });
    }

    /// Keeps the latest reading of a metric under its name.
    pub fn add_metric(&mut self, metric_type: MetricType, value_bits: u64, timestamp: i64)
        ensures
            metrics_view(final(self).metrics@) == put_named(
                metrics_view(old(self).metrics@),
                metric_name_spec(metric_type),
                MetricValue { value_bits, timestamp },
            ),
            final(self).counters == old(self).counters,
    {
        let name = metric_name(metric_type);
        self.put_metric(name, MetricValue { value_bits, timestamp });
    }

    /// The latest `cpu_usage` reading, zero without one.
    pub fn get_peak_cpu(&self) -> (r: u64)
        ensures
            r == match get_named(metrics_view(self.metrics@), "cpu_usage"@) {
                Some(v) => v.value_bits,
                None => 0u64,
            },
    {
        let i = self.metric_index("cpu_usage");
        proof {
            lemma_find_name_range(metrics_view(self.metrics@), "cpu_usage"@, 0);
        }
        if i < self.metrics.len() {
            assert(metrics_view(self.metrics@)[i as int].1 == self.metrics@[i as int].1);
            self.metrics[i].1.value_bits
        } else {
            0
        }
    }

    /// The latest `render_fps` reading, sixty frames a second without one.
    pub fn get_average_fps(&self) -> (r: u64)
        ensures
            r == match get_named(metrics_view(self.metrics@), "render_fps"@) {
                Some(v) => v.value_bits,
                None => sixty_fps_bits(),
            },
    {
        let i = self.metric_index("render_fps");
        proof {
            lemma_find_name_range(metrics_view(self.metrics@), "render_fps"@, 0);
        }
        if i < self.metrics.len() {
            assert(metrics_view(self.metrics@)[i as int].1 == self.metrics@[i as int].1);
            self.metrics[i].1.value_bits
        } else {
            0x404e_0000_0000_0000
        }
    }

    /// Adds a transfer's bytes to the counter of its direction.
    pub fn record_network_activity(&mut self, direction: NetworkDirection, bytes: usize)
        requires
            match get_named(counts_view(old(self).counters@), counter_name(direction)) {
                Some(n) => n + bytes <= u64::MAX,
                None => true,
            },
        ensures
            counts_view(final(self).counters@) == put_named(
                counts_view(old(self).counters@),
                counter_name(direction),
                match get_named(counts_view(old(self).counters@), counter_name(direction)) {
                    Some(n) => (n + bytes) as u64,
                    None => bytes as u64,
                },
            ),
    {
        let name = match direction {
            NetworkDirection::Upload => "network_upload_bytes",
            NetworkDirection::Download => "network_download_bytes",
        };
        bump_counter(&mut self.counters, name, bytes as u64);
    }
}

/// What the debugger is told about.
#[derive(Debug)]
pub enum DebugEvent {
    CommandStarted { session_id: String, command: String, timestamp: i64 },
    CommandCompleted { session_id: String, command: String, duration: u64, exit_code: i32 },
    MemorySnapshot { timestamp: i64, usage: MemoryUsage },
    /// `value_bits` holds an `f64`.
    PerformanceMetric { metric_type: MetricType, value_bits: u64, timestamp: i64 },
    NetworkActivity { direction: NetworkDirection, bytes: usize, endpoint: String },
    ErrorOccurred { error: String, context: String, timestamp: i64 },
}

/// Which background work debugging starts with.
#[derive(Debug, Clone, Copy, PartialEq, Eq, Structural)]
pub struct DebugStartup {
    pub performance_monitoring: bool,
    pub memory_profiling: bool,
    pub command_tracing: bool,
}

/// The tracer, profiler and counters of a debugging session.
pub struct DebuggingEngine {
    pub profiler: Profiler,
    pub tracer: CommandTracer,
    pub monitor: PerformanceMonitor,
}

impl DebuggingEngine {
    pub fn new() -> (r: DebuggingEngine)
        ensures
            !r.profiler.enabled && !r.tracer.enabled && !r.monitor.enabled,
            r.tracer.entries@.len() == 0,
            r.profiler.memory_samples@.len() == 0,
            r.tracer.max_entries == 10000 && r.profiler.max_samples == 10000,
            r.monitor.metrics@.len() == 0 && r.monitor.counters@.len() == 0,
    {
        DebuggingEngine { profiler: Profiler::new(), tracer: CommandTracer::new(), monitor: PerformanceMonitor::new() }
    }

    /// Nothing starts unless debugging is on; then each part as configured.
    pub fn startup(enabled: bool, performance_monitoring: bool, memory_profiling: bool, command_tracing: bool) -> (r: DebugStartup)
        ensures
            r == (DebugStartup {
                performance_monitoring: enabled && performance_monitoring,
                memory_profiling: enabled && memory_profiling,
                command_tracing: enabled && command_tracing,
            }),
    {
        DebugStartup {
            performance_monitoring: enabled && performance_monitoring,
            memory_profiling: enabled && memory_profiling,
            command_tracing: enabled && command_tracing,
        }
    }

    /// A command that started is traced by an enabled tracer under a fresh identifier; the
    /// caller gives the environment and directory it runs in.
    pub fn handle_command_started(
        &mut self,
        session_id: String,
        command: String,
        timestamp: i64,
        environment: Vec<(String, String)>,
        working_directory: String,
    )
        requires
            old(self).tracer.entries@.len() + 1 > old(self).tracer.max_entries ==> old(self).tracer.entries@.len() + 1
                >= 1000,
        ensures
            !old(self).tracer.enabled ==> final(self).tracer.entries@ == old(self).tracer.entries@,
            old(self).tracer.enabled ==> exists|e: TraceEntry|
                #[trigger] started_entry(
                    e,
                    e.id,
                    session_id,
                    command,
                    timestamp,
                    old(self).tracer.trace_level,
                    environment,
                    working_directory,
                ) && final(self).tracer.entries@ == capped(
                    old(self).tracer.entries@.push(e),
                    old(self).tracer.max_entries as int,
                ),
            final(self).tracer.max_entries == old(self).tracer.max_entries,
            final(self).tracer.enabled == old(self).tracer.enabled,
            final(self).profiler == old(self).profiler,
            final(self).monitor == old(self).monitor,
    {
        if self.tracer.enabled {
            let id = new_session_id();
            self.tracer.add_command_started(id, session_id, command, timestamp, environment, working_directory);
        }
    }

    /// Applies one event to the tracer, the profiler or the monitor.
    pub fn handle_event(&mut self, event: DebugEvent, environment: Vec<(String, String)>, working_directory: String)
        requires
            old(self).tracer.entries@.len() + 1 > old(self).tracer.max_entries ==> old(self).tracer.entries@.len() + 1
                >= 1000,
            old(self).profiler.memory_samples@.len() + 1 > old(self).profiler.max_samples ==> old(
                self,
            ).profiler.memory_samples@.len() + 1 >= 1000,
            event matches DebugEvent::NetworkActivity { direction, bytes, .. } ==> match get_named(
                counts_view(old(self).monitor.counters@),
                counter_name(direction),
            ) {
                Some(n) => n + bytes <= u64::MAX,
                None => true,
            },
        ensures
            match event {
                DebugEvent::PerformanceMetric { metric_type, value_bits, timestamp } => metrics_view(
                    final(self).monitor.metrics@,
                ) == put_named(
                    metrics_view(old(self).monitor.metrics@),
                    metric_name_spec(metric_type),
                    MetricValue { value_bits, timestamp },
                ) && final(self).tracer.entries@ == old(self).tracer.entries@,
                DebugEvent::NetworkActivity { direction, bytes, .. } => counts_view(
                    final(self).monitor.counters@,
                ) == put_named(
                    counts_view(old(self).monitor.counters@),
                    counter_name(direction),
                    match get_named(counts_view(old(self).monitor.counters@), counter_name(direction)) {
                        Some(n) => (n + bytes) as u64,
                        None => bytes as u64,
                    },
                ) && final(self).tracer.entries@ == old(self).tracer.entries@,
                DebugEvent::MemorySnapshot { .. } => final(self).tracer.entries@ == old(self).tracer.entries@,
                _ => final(self).profiler.memory_samples@ == old(self).profiler.memory_samples@,
            },
    {
        match event {
            DebugEvent::CommandStarted { session_id, command, timestamp } => {
                self.handle_command_started(session_id, command, timestamp, environment, working_directory);
            },
            DebugEvent::CommandCompleted { session_id, command, duration, exit_code } => {
                self.handle_command_completed(session_id.as_str(), command.as_str(), duration, exit_code);
            },
            DebugEvent::MemorySnapshot { timestamp, usage } => {
                self.handle_memory_snapshot(timestamp, usage);
            },
            DebugEvent::PerformanceMetric { metric_type, value_bits, timestamp } => {
                self.monitor.add_metric(metric_type, value_bits, timestamp);
            },
            DebugEvent::NetworkActivity { direction, bytes, .. } => {
                self.monitor.record_network_activity(direction, bytes);
            },
            DebugEvent::ErrorOccurred { error, context, .. } => {
                self.handle_error_occurred(error, context);
            },
        }
    }

    /// A command that completed is recorded by an enabled tracer; a disabled one keeps its
    /// entries as they are.
    pub fn handle_command_completed(&mut self, session_id: &str, command: &str, duration: u64, exit_code: i32)
        ensures
            !old(self).tracer.enabled ==> final(self).tracer.entries@ == old(self).tracer.entries@,
            old(self).tracer.enabled ==> ({
                let j = open_entry(old(self).tracer.entries@, session_id@, command@, old(self).tracer.entries@.len() - 1);
                &&& final(self).tracer.entries@.len() == old(self).tracer.entries@.len()
                &&& forall|k: int| 0 <= k < old(self).tracer.entries@.len() && k != j ==> #[trigger] final(self).tracer.entries@[k] == old(self).tracer.entries@[k]
                &&& j >= 0 ==> final(self).tracer.entries@[j].exit_code == exit_code && final(self).tracer.entries@[j].duration == duration
            }),
            final(self).profiler == old(self).profiler,
            final(self).monitor == old(self).monitor,
    {
        if self.tracer.enabled {
            self.tracer.add_command_completed(session_id, command, duration, exit_code);
        }
    }

    /// An error is recorded on the newest entry by an enabled tracer.
    pub fn handle_error_occurred(&mut self, error: String, context: String)
        ensures
            !old(self).tracer.enabled ==> final(self).tracer.entries@ == old(self).tracer.entries@,
            old(self).tracer.enabled && old(self).tracer.entries@.len() > 0 ==> pairs_view(
                final(self).tracer.entries@.last().metadata@,
            ) == put_named(
                put_named(pairs_view(old(self).tracer.entries@.last().metadata@), "error"@, error@),
                "context"@,
                context@,
            ),
            final(self).tracer.entries@.len() == old(self).tracer.entries@.len(),
            final(self).profiler == old(self).profiler,
            final(self).monitor == old(self).monitor,
    {
        if self.tracer.enabled {
            self.tracer.add_error(error, context);
        }
    }

    /// A memory reading kept by an enabled profiler, without allocation counts.
    pub fn handle_memory_snapshot(&mut self, timestamp: i64, usage: MemoryUsage)
        requires
            old(self).profiler.memory_samples@.len() + 1 > old(self).profiler.max_samples ==> old(
                self,
            ).profiler.memory_samples@.len() + 1 >= 1000,
        ensures
            final(self).profiler.memory_samples@ == (if old(self).profiler.enabled {
                capped(
                    old(self).profiler.memory_samples@.push(
                        MemorySample {
                            timestamp,
                            heap_size: usage.heap,
                            stack_size: usage.stack,
                            allocations: 0,
                            deallocations: 0,
                        },
                    ),
                    old(self).profiler.max_samples as int,
                )
            } else {
                old(self).profiler.memory_samples@
            }),
            final(self).tracer == old(self).tracer,
            final(self).monitor == old(self).monitor,
    {
        if self.profiler.enabled {
            self.profiler.add_memory_sample(
                MemorySample {
                    timestamp,
                    heap_size: usage.heap,
                    stack_size: usage.stack,
                    allocations: 0,
                    deallocations: 0,
                },
            );
        }
    }

    /// The report for a session: counts and averages of the trace, memory figures of the
    /// profiler, and the error tally, stamped with the current time.
    pub fn generate_report(&self, session_id: &str) -> (r: DebugReport)
        requires
            samples_fit(self.profiler.memory_samples@),
            completed(self.tracer.entries@).len() <= u32::MAX,
            sum_ns(durations(completed(self.tracer.entries@))) / 1_000_000_000 <= u64::MAX,
        ensures
            r.session_id@ == session_id@,
            r.performance_summary.total_commands == self.tracer.entries@.len(),
            r.performance_summary.average_command_time == average_spec(
                durations(completed(self.tracer.entries@)),
            ),
            r.performance_summary.memory_peak == peak_of(self.profiler.memory_samples@),
            r.performance_summary.cpu_peak == match get_named(metrics_view(self.monitor.metrics@), "cpu_usage"@) {
                Some(v) => v.value_bits,
                None => 0u64,
            },
            r.performance_summary.render_fps_average == match get_named(
                metrics_view(self.monitor.metrics@),
                "render_fps"@,
            ) {
                Some(v) => v.value_bits,
                None => sixty_fps_bits(),
            },
            r.memory_summary.initial_usage == (if self.profiler.memory_samples@.len() == 0 {
                0
            } else {
                sample_total(self.profiler.memory_samples@[0])
            }),
            r.memory_summary.peak_usage == peak_of(self.profiler.memory_samples@),
            r.memory_summary.final_usage == (if self.profiler.memory_samples@.len() == 0 {
                0
            } else {
                sample_total(self.profiler.memory_samples@.last())
            }),
            r.memory_summary.total_allocations == 0 && r.memory_summary.total_deallocations == 0,
            r.memory_summary.leaks_detected == 0,
            r.command_summary.total_commands == self.tracer.entries@.len(),
            r.command_summary.successful_commands == count_succeeded(self.tracer.entries@),
            r.command_summary.failed_commands == count_failed(self.tracer.entries@),
            counts_view(r.command_summary.most_common_commands@) == top10(
                sort_desc(tally(commands_of(self.tracer.entries@))),
            ),
            counts_view(r.command_summary.slowest_commands@) == top10(
                sort_desc(completed(self.tracer.entries@)),
            ),
            r.error_summary.total_errors == errors(self.tracer.entries@).len(),
            counts_view(r.error_summary.error_types@) == tally(errors(self.tracer.entries@)),
            r.error_summary.recent_errors@.map_values(|s: String| s@) == top10(
                errors(self.tracer.entries@).reverse(),
            ),
    {
        let peak = self.profiler.get_peak_memory();
        let performance_summary = PerformanceSummary {
            total_commands: self.tracer.get_command_count(),
            average_command_time: self.tracer.get_average_command_time(),
            cpu_peak: self.monitor.get_peak_cpu(),
            memory_peak: peak,
            render_fps_average: self.monitor.get_average_fps(),
        };
        let memory_summary = MemorySummary {
            initial_usage: self.profiler.get_initial_memory(),
            peak_usage: peak,
            final_usage: self.profiler.get_current_memory(),
            total_allocations: 0,
            total_deallocations: 0,
            leaks_detected: 0,
        };
        let command_summary = CommandSummary {
            total_commands: self.tracer.get_command_count(),
            successful_commands: self.tracer.get_successful_command_count(),
            failed_commands: self.tracer.get_failed_command_count(),
            most_common_commands: self.tracer.get_most_common_commands(),
            slowest_commands: self.tracer.get_slowest_commands(),
        };
        let error_summary = ErrorSummary {
            total_errors: self.tracer.get_error_count(),
            error_types: self.tracer.get_error_types(),
            recent_errors: self.tracer.get_recent_errors(),
        };
        DebugReport {
            timestamp: now_millis(),
            session_id: String::from_str(session_id),
            performance_summary,
            memory_summary,
            command_summary,
            error_summary,
        }
    }
}


proof fn lemma_first_below(s: Seq<(Seq<char>, u64)>, c: u64, k: int)
    requires
        0 <= k <= s.len(),
    ensures
        k <= first_below(s, c, k) <= s.len(),
        forall|j: int| k <= j < first_below(s, c, k) ==> (#[trigger] s[j]).1 >= c,
        first_below(s, c, k) < s.len() ==> s[first_below(s, c, k)].1 < c,
    decreases s.len() - k,
{
    if k < s.len() && s[k].1 >= c {
        lemma_first_below(s, c, k + 1);
    }
}

pub open spec fn sorted_by_count(s: Seq<(Seq<char>, u64)>) -> bool {
    forall|i: int, j: int| 0 <= i < j < s.len() ==> s[i].1 >= s[j].1
}

/// The report's lists come largest first and hold exactly what they were built from.
pub proof fn lemma_sort_desc_sorted_permutation(s: Seq<(Seq<char>, u64)>)
    ensures
        sorted_by_count(sort_desc(s)),
        sort_desc(s).to_multiset() == s.to_multiset(),
        sort_desc(s).len() == s.len(),
    decreases s.len(),
{
    broadcast use vstd::seq_lib::to_multiset_build, vstd::seq_lib::to_multiset_insert;

    if s.len() > 0 {
        let p = sort_desc(s.drop_last());
        lemma_sort_desc_sorted_permutation(s.drop_last());
        let x = s.last();
        let k = first_below(p, x.1, 0);
        lemma_first_below(p, x.1, 0);
        let r = p.take(k) + seq![x] + p.skip(k);
        assert(r =~= p.insert(k, x));
        assert(s =~= s.drop_last().push(x));
        assert forall|i: int, j: int| 0 <= i < j < r.len() implies r[i].1 >= r[j].1 by {
            if j < k {
                assert(r[i] == p[i] && r[j] == p[j]);
            } else if j == k {
                assert(r[i] == p[i] && r[j] == x);
            } else if i < k {
                assert(r[i] == p[i] && r[j] == p[j - 1]);
            } else if i == k {
                assert(r[i] == x && r[j] == p[j - 1]);
                assert(p[k].1 < x.1);
            } else {
                assert(r[i] == p[i - 1] && r[j] == p[j - 1]);
            }
        }
    }
}

/// The most common and the slowest commands of a report: at most ten, largest first, each
/// one of the entries they were taken from.
pub proof fn lemma_top_ten(s: Seq<(Seq<char>, u64)>)
    ensures
        top10(sort_desc(s)).len() <= 10,
        sorted_by_count(top10(sort_desc(s))),
        forall|i: int| 0 <= i < top10(sort_desc(s)).len() ==> s.contains(#[trigger] top10(sort_desc(s))[i]),
{
    broadcast use vstd::seq_lib::to_multiset_contains;

    lemma_sort_desc_sorted_permutation(s);
    let r = sort_desc(s);
    assert forall|i: int| 0 <= i < top10(r).len() implies s.contains(#[trigger] top10(r)[i]) by {
        assert(top10(r)[i] == r[i]);
        assert(r.contains(r[i]));
        assert(r.to_multiset().count(r[i]) > 0);
    }
}


/// How often `c` occurs in `s`.
pub open spec fn occurrences(s: Seq<Seq<char>>, c: Seq<char>) -> nat
    decreases s.len(),
{
    if s.len() == 0 {
        0
    } else {
        occurrences(s.drop_last(), c) + if s.last() == c {
            1nat
        } else {
            0nat
        }
    }
}

proof fn lemma_find_name_absent<V>(m: Seq<(Seq<char>, V)>, k: Seq<char>, i: int)
    requires
        0 <= i <= m.len(),
    ensures
        find_name(m, k, i) == m.len() <==> forall|j: int| i <= j < m.len() ==> m[j].0 != k,
    decreases m.len() - i,
{
    lemma_find_name_range(m, k, i);
    if i < m.len() && m[i].0 != k {
        lemma_find_name_absent(m, k, i + 1);
    }
}

/// Each text of a tally is counted as often as it occurs, each occurs once in it, and every
/// text that occurs is in it (for as many texts as a count can hold).
pub proof fn lemma_tally_counts(s: Seq<Seq<char>>)
    requires
        s.len() <= u64::MAX,
    ensures
        forall|i: int| 0 <= i < tally(s).len() ==> (#[trigger] tally(s)[i]).1 == occurrences(s, tally(s)[i].0),
        forall|i: int, j: int| 0 <= i < j < tally(s).len() ==> (#[trigger] tally(s)[i]).0 != (#[trigger] tally(s)[j]).0,
        forall|c: Seq<char>| #[trigger] occurrences(s, c) > 0 ==> exists|i: int| 0 <= i < tally(s).len() && tally(s)[i].0 == c,
    decreases s.len(),
{
    if s.len() > 0 {
        let p = s.drop_last();
        let t = tally(p);
        let c = s.last();
        lemma_tally_counts(p);
        lemma_find_name_range(t, c, 0);
        lemma_find_name_absent(t, c, 0);
        let idx = find_name(t, c, 0);
        let r = tally(s);
        assert forall|x: Seq<char>| #[trigger] occurrences(s, x) == occurrences(p, x) + if c == x { 1nat } else { 0nat } by {}
        if idx < t.len() {
            assert(get_named(t, c) == Some(t[idx].1));
            lemma_occurrences_bound(p, c);
            assert(t[idx].1 == occurrences(p, c));
            assert(r == t.update(idx, (c, (t[idx].1 + 1) as u64)));
            assert forall|i: int| 0 <= i < r.len() implies (#[trigger] r[i]).1 == occurrences(s, r[i].0) by {
                assert(occurrences(s, r[i].0) == occurrences(p, r[i].0) + if c == r[i].0 { 1nat } else { 0nat });
                if i != idx {
                    assert(t[i].0 != t[idx].0);
                    assert(r[i] == t[i]);
                } else {
                    assert(t[idx].1 == occurrences(p, c));
                    assert(r[idx].1 == occurrences(p, c) + 1);
                }
            }
            assert forall|i: int, j: int| 0 <= i < j < r.len() implies (#[trigger] r[i]).0 != (#[trigger] r[j]).0 by {
                assert(r[i].0 == t[i].0 && r[j].0 == t[j].0);
            }
            assert forall|x: Seq<char>| #[trigger] occurrences(s, x) > 0 implies exists|i: int| 0 <= i < r.len() && r[i].0 == x by {
                if x == c {
                    assert(r[idx].0 == x);
                } else {
                    assert(occurrences(p, x) > 0);
                    let i = choose|i: int| 0 <= i < t.len() && t[i].0 == x;
                    assert(r[i].0 == x);
                }
            }
        } else {
            assert(get_named(t, c) is None);
            assert(r == t.push((c, 1u64)));
            assert(occurrences(p, c) == 0) by {
                if occurrences(p, c) > 0 {
                    let i = choose|i: int| 0 <= i < t.len() && t[i].0 == c;
                    assert(t[i].0 != c);
                }
            }
            assert forall|i: int| 0 <= i < r.len() implies (#[trigger] r[i]).1 == occurrences(s, r[i].0) by {
                assert(occurrences(s, r[i].0) == occurrences(p, r[i].0) + if c == r[i].0 { 1nat } else { 0nat });
                if i < t.len() {
                    assert(r[i] == t[i]);
                    assert(t[i].0 != c);
                }
            }
            assert forall|i: int, j: int| 0 <= i < j < r.len() implies (#[trigger] r[i]).0 != (#[trigger] r[j]).0 by {
                if j < t.len() {
                    assert(r[i].0 == t[i].0 && r[j].0 == t[j].0);
                } else {
                    assert(r[j].0 == c && r[i].0 == t[i].0);
                }
            }
            assert forall|x: Seq<char>| #[trigger] occurrences(s, x) > 0 implies exists|i: int| 0 <= i < r.len() && r[i].0 == x by {
                if x == c {
                    assert(r[t.len() as int].0 == x);
                } else {
                    assert(occurrences(p, x) > 0);
                    let i = choose|i: int| 0 <= i < t.len() && t[i].0 == x;
                    assert(r[i].0 == x);
                }
            }
        }
    }
}

proof fn lemma_occurrences_bound(s: Seq<Seq<char>>, c: Seq<char>)
    ensures
        occurrences(s, c) <= s.len(),
    decreases s.len(),
{
    if s.len() > 0 {
        lemma_occurrences_bound(s.drop_last(), c);
    }
}

} // verus!
