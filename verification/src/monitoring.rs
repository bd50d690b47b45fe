//! Periodic performance sampling of the supervised process: a bounded,
//! first-in-first-out history of samples and aggregates over a recent window.
//!
//! Every sample carries the time at which it was taken. The window of an
//! aggregate reaches back from the time of the query: a sample is in it if no
//! more than the window's length lies between its taking and the query.
//!
//! Readings that are fractional by nature are held in fixed point, so that
//! every aggregate is exact integer arithmetic:
//! processor load in thousandths of a percent, tick rate in thousandths of a
//! tick per second, tick time in microseconds.

use crate::clock::Timestamp;
use vstd::prelude::*;

verus! {

/// How many samples a monitor keeps before the oldest is evicted.
pub const MAX_SAMPLES: usize = 1000;

/// The tick rate reported while none is measured: 20 ticks per second.
pub const DEFAULT_TPS: u32 = 20000;

/// One sample of the supervised process.
#[derive(Debug, Clone, Copy, PartialEq, Eq, Structural)]
pub struct PerformanceMetrics {
    /// Processor load, in thousandths of a percent.
    pub cpu_usage: u32,
    /// Resident memory, in bytes.
    pub memory_usage: u64,
    /// Tick rate, in thousandths of a tick per second.
    pub tps: u32,
    pub player_count: u32,
    /// Whole seconds between the start of the sampler and this sample.
    pub uptime: u64,
    /// Duration of the last server tick, in microseconds.
    pub last_tick_time: u32,
    pub entities: u32,
    pub chunks_loaded: u32,
    /// When the sample was taken.
    pub taken_at: Timestamp,
}

/// What the process table said of the supervised process at one tick.
#[derive(Debug, Clone, Copy, PartialEq, Eq, Structural)]
pub struct ProcessReading {
    /// Processor load, in thousandths of a percent.
    pub cpu_usage: u32,
    /// Resident memory, in bytes.
    pub memory_usage: u64,
}

/// The quantities of a sample that are aggregated over a window.
#[derive(Debug, Clone, Copy, PartialEq, Eq, Structural)]
pub enum Gauge {
    CpuUsage,
    MemoryUsage,
    Tps,
    PlayerCount,
    LastTickTime,
    Entities,
    ChunksLoaded,
}

impl PerformanceMetrics {
    /// The value of one gauge of this sample.
    pub open spec fn gauge(self, g: Gauge) -> int {
        match g {
            Gauge::CpuUsage => self.cpu_usage as int,
            Gauge::MemoryUsage => self.memory_usage as int,
            Gauge::Tps => self.tps as int,
            Gauge::PlayerCount => self.player_count as int,
            Gauge::LastTickTime => self.last_tick_time as int,
            Gauge::Entities => self.entities as int,
            Gauge::ChunksLoaded => self.chunks_loaded as int,
        }
    }
}

/// The sample that one tick records: the reading of the process table, or
/// zeros where the process was not found, with the placeholders for what is
/// not measured.
pub open spec fn sample_of(
    reading: Option<ProcessReading>,
    uptime: u64,
    last_tick_time: u32,
    taken_at: Timestamp,
) -> PerformanceMetrics {
    PerformanceMetrics {
        cpu_usage: match reading {
            Some(r) => r.cpu_usage,
            None => 0,
        },
        memory_usage: match reading {
            Some(r) => r.memory_usage,
            None => 0,
        },
        tps: DEFAULT_TPS,
        player_count: 0,
        uptime,
        last_tick_time,
        entities: 0,
        chunks_loaded: 0,
        taken_at,
    }
}

/// Appending to a history of at most `cap` samples: the sample goes to the
/// back, and if that makes the history longer than `cap` the front leaves.
pub open spec fn push_bounded<T>(s: Seq<T>, x: T, cap: nat) -> Seq<T> {
    let t = s.push(x);
    if t.len() > cap {
        t.drop_first()
    } else {
        t
    }
}

/// The history after recording `samples` one after the other, oldest first.
pub open spec fn record_all<T>(s: Seq<T>, samples: Seq<T>, cap: nat) -> Seq<T>
    decreases samples.len(),
{
    if samples.len() == 0 {
        s
    } else {
        push_bounded(record_all(s, samples.drop_last(), cap), samples.last(), cap)
    }
}

/// Whether the sample `m` was taken within `window_secs` seconds of `now`:
/// no more than that many seconds lie between the taking and `now`.
pub open spec fn is_recent(m: PerformanceMetrics, now: Timestamp, window_secs: u64) -> bool {
    now.millis - m.taken_at.millis <= window_secs * 1000
}

/// The samples of `history` that were taken within `window_secs` seconds of
/// `now`, in their order.
pub open spec fn recent(history: Seq<PerformanceMetrics>, now: Timestamp, window_secs: u64) -> Seq<
    PerformanceMetrics,
> {
    history.filter(|m: PerformanceMetrics| is_recent(m, now, window_secs))
}

/// The sum of one gauge over `s`.
pub open spec fn total(s: Seq<PerformanceMetrics>, g: Gauge) -> int
    decreases s.len(),
{
    if s.len() == 0 {
        0
    } else {
        total(s.drop_last(), g) + s.last().gauge(g)
    }
}

/// The largest value of one gauge over `s`; zero over no samples.
pub open spec fn peak(s: Seq<PerformanceMetrics>, g: Gauge) -> int
    decreases s.len(),
{
    if s.len() == 0 {
        0
    } else {
        let before = peak(s.drop_last(), g);
        if s.last().gauge(g) > before {
            s.last().gauge(g)
        } else {
            before
        }
    }
}

/// The average sample of a non-empty `s`: each gauge is the sum over `s`
/// divided by the number of samples, rounded down; uptime and time are those of the
/// last sample.
pub open spec fn average_of(s: Seq<PerformanceMetrics>) -> PerformanceMetrics {
    PerformanceMetrics {
        cpu_usage: (total(s, Gauge::CpuUsage) / s.len() as int) as u32,
        memory_usage: (total(s, Gauge::MemoryUsage) / s.len() as int) as u64,
        tps: (total(s, Gauge::Tps) / s.len() as int) as u32,
        player_count: (total(s, Gauge::PlayerCount) / s.len() as int) as u32,
        uptime: s.last().uptime,
        last_tick_time: (total(s, Gauge::LastTickTime) / s.len() as int) as u32,
        entities: (total(s, Gauge::Entities) / s.len() as int) as u32,
        chunks_loaded: (total(s, Gauge::ChunksLoaded) / s.len() as int) as u32,
        taken_at: s.last().taken_at,
    }
}

/// The peak sample of a non-empty `s`: each gauge is the largest over `s`;
/// uptime and time are those of the last sample.
pub open spec fn peak_of(s: Seq<PerformanceMetrics>) -> PerformanceMetrics {
    PerformanceMetrics {
        cpu_usage: peak(s, Gauge::CpuUsage) as u32,
        memory_usage: peak(s, Gauge::MemoryUsage) as u64,
        tps: peak(s, Gauge::Tps) as u32,
        player_count: peak(s, Gauge::PlayerCount) as u32,
        uptime: s.last().uptime,
        last_tick_time: peak(s, Gauge::LastTickTime) as u32,
        entities: peak(s, Gauge::Entities) as u32,
        chunks_loaded: peak(s, Gauge::ChunksLoaded) as u32,
        taken_at: s.last().taken_at,
    }
}

/// The largest value a gauge can take.
pub open spec fn gauge_limit(g: Gauge) -> int {
    match g {
        Gauge::MemoryUsage => u64::MAX as int,
        _ => u32::MAX as int,
    }
}

/// A sum over `s` is at most the number of samples times the gauge's limit,
/// and not negative.
pub proof fn lemma_total_bounds(s: Seq<PerformanceMetrics>, g: Gauge)
    ensures
        0 <= total(s, g) <= s.len() * gauge_limit(g),
    decreases s.len(),
{
    if s.len() > 0 {
        lemma_total_bounds(s.drop_last(), g);
        assert(s.len() * gauge_limit(g) == (s.len() - 1) * gauge_limit(g) + gauge_limit(g))
            by (nonlinear_arith);
    }
}

/// An average over a non-empty `s` lies between zero and the gauge's limit,
/// so it fits the gauge's type.
pub proof fn lemma_average_bounds(s: Seq<PerformanceMetrics>, g: Gauge)
    requires
        s.len() > 0,
    ensures
        0 <= total(s, g) / s.len() as int <= gauge_limit(g),
{
    lemma_total_bounds(s, g);
    let n = s.len() as int;
    let t = total(s, g);
    let m = gauge_limit(g);
    assert(0 <= t / n <= m) by (nonlinear_arith)
        requires
            n > 0,
            0 <= t <= n * m,
    ;
}

/// Extending the recent samples of a prefix by one sample.
proof fn lemma_recent_step(
    history: Seq<PerformanceMetrics>,
    now: Timestamp,
    window_secs: u64,
    i: int,
)
    requires
        0 <= i < history.len(),
    ensures
        recent(history.take(i + 1), now, window_secs) == if is_recent(
            history[i],
            now,
            window_secs,
        ) {
            recent(history.take(i), now, window_secs).push(history[i])
        } else {
            recent(history.take(i), now, window_secs)
        },
{
    reveal(Seq::filter);
    assert(history.take(i + 1).drop_last() =~= history.take(i));
}

/// Whether the sample `m` was taken within `window_secs` seconds of `now`.
fn taken_within(m: &PerformanceMetrics, now: Timestamp, window_secs: u64) -> (b: bool)
    ensures
        b == is_recent(*m, now, window_secs),
{
    now.millis as i128 - m.taken_at.millis as i128 <= window_secs as i128 * 1000
}

/// The retained samples of a monitor, oldest first, never more than
/// `max_samples` of them.
#[derive(Debug)]
pub struct PerformanceHistory {
    metrics: Vec<PerformanceMetrics>,
    max_samples: usize,
}

impl View for PerformanceHistory {
    type V = Seq<PerformanceMetrics>;

    closed spec fn view(&self) -> Seq<PerformanceMetrics> {
        self.metrics@
    }
}

impl PerformanceHistory {
    /// The bound on the number of retained samples.
    pub closed spec fn capacity(&self) -> nat {
        self.max_samples as nat
    }

    /// The history holds no more samples than its bound.
    pub closed spec fn wf(&self) -> bool {
        self.metrics@.len() <= self.max_samples
    }

    /// An empty history that keeps at most `max_samples` samples.
    pub fn with_capacity(max_samples: usize) -> (h: PerformanceHistory)
        ensures
            h.wf(),
            h@ == Seq::<PerformanceMetrics>::empty(),
            h.capacity() == max_samples,
    {
        PerformanceHistory { metrics: Vec::new(), max_samples }
    }

    /// The bound on the number of retained samples.
    pub fn max_samples(&self) -> (n: usize)
        ensures
            n == self.capacity(),
    {
        self.max_samples
    }

    /// The number of retained samples.
    pub fn len(&self) -> (n: usize)
        requires
            self.wf(),
        ensures
            n == self@.len(),
            n <= self.capacity(),
    {
        self.metrics.len()
    }

    /// Appends `sample`, evicting the oldest sample if the bound is exceeded.
    pub fn record(&mut self, sample: PerformanceMetrics)
        requires
            old(self).wf(),
        ensures
            final(self).wf(),
            final(self).capacity() == old(self).capacity(),
            final(self)@ == push_bounded(old(self)@, sample, old(self).capacity()),
    {
        if self.metrics.len() >= self.max_samples {
            if self.metrics.len() > 0 {
                self.metrics.remove(0);
            }
        }
        if self.max_samples > 0 {
            self.metrics.push(sample);
        }
        assert(self.metrics@ =~= push_bounded(old(self)@, sample, old(self).capacity()));
    }

    /// The most recent sample, if any.
    pub fn latest(&self) -> (r: Option<PerformanceMetrics>)
        ensures
            r == if self@.len() == 0 {
                None
            } else {
                Some(self@.last())
            },
    {
        let n = self.metrics.len();
        if n == 0 {
            None
        } else {
            Some(self.metrics[n - 1])
        }
    }

    /// A copy of the retained samples, oldest first.
    pub fn samples(&self) -> (v: Vec<PerformanceMetrics>)
        ensures
            v@ == self@,
    {
        let mut v: Vec<PerformanceMetrics> = Vec::new();
        let mut i: usize = 0;
        while i < self.metrics.len()
            invariant
                i <= self.metrics.len(),
                v@ == self.metrics@.take(i as int),
            decreases self.metrics.len() - i,
        {
            v.push(self.metrics[i]);
            assert(self.metrics@.take(i + 1) =~= self.metrics@.take(i as int).push(
                self.metrics@[i as int],
            ));
            i = i + 1;
        }
        assert(self.metrics@.take(i as int) =~= self.metrics@);
        v
    }

    /// The average over the samples taken within `window_secs` seconds of
    /// `now`, or nothing if there is no such sample.
    pub fn average(&self, window_secs: u64, now: Timestamp) -> (r: Option<PerformanceMetrics>)
        ensures
            r == if recent(self@, now, window_secs).len() == 0 {
                None
            } else {
                Some(average_of(recent(self@, now, window_secs)))
            },
            r is Some ==> forall|g: Gauge|
                #[trigger] r.unwrap().gauge(g) == total(recent(self@, now, window_secs), g) / recent(self@, now, window_secs).len() as int,
    {
        let n = self.metrics.len();
        let mut count: usize = 0;
        let mut cpu: u128 = 0;
        let mut memory: u128 = 0;
        let mut tps: u128 = 0;
        let mut players: u128 = 0;
        let mut tick_time: u128 = 0;
        let mut entities: u128 = 0;
        let mut chunks: u128 = 0;
        let mut uptime: u64 = 0;
        let mut taken_at = Timestamp { millis: 0 };
        let mut i: usize = 0;
        while i < n
            invariant
                n == self.metrics@.len(),
                i <= n,
                count <= i,
                count == recent(self@.take(i as int), now, window_secs).len(),
                cpu == total(recent(self@.take(i as int), now, window_secs), Gauge::CpuUsage),
                memory == total(recent(self@.take(i as int), now, window_secs), Gauge::MemoryUsage),
                tps == total(recent(self@.take(i as int), now, window_secs), Gauge::Tps),
                players == total(recent(self@.take(i as int), now, window_secs), Gauge::PlayerCount),
                tick_time == total(
                    recent(self@.take(i as int), now, window_secs),
                    Gauge::LastTickTime,
                ),
                entities == total(recent(self@.take(i as int), now, window_secs), Gauge::Entities),
                chunks == total(recent(self@.take(i as int), now, window_secs), Gauge::ChunksLoaded),
                count > 0 ==> uptime == recent(
                    self@.take(i as int),
                    now,
                    window_secs,
                ).last().uptime,
                count > 0 ==> taken_at == recent(
                    self@.take(i as int),
                    now,
                    window_secs,
                ).last().taken_at,
            decreases n - i,
        {
            let m = self.metrics[i];
            proof {
                lemma_recent_step(self@, now, window_secs, i as int);
                let w = recent(self@.take(i as int), now, window_secs);
                lemma_total_bounds(w, Gauge::CpuUsage);
                lemma_total_bounds(w, Gauge::MemoryUsage);
                lemma_total_bounds(w, Gauge::Tps);
                lemma_total_bounds(w, Gauge::PlayerCount);
                lemma_total_bounds(w, Gauge::LastTickTime);
                lemma_total_bounds(w, Gauge::Entities);
                lemma_total_bounds(w, Gauge::ChunksLoaded);
                assert(w.len() * (u64::MAX as int) <= (usize::MAX as int) * (u64::MAX as int))
                    by (nonlinear_arith)
                    requires
                        w.len() <= usize::MAX,
                ;
                assert(w.len() * (u32::MAX as int) <= (usize::MAX as int) * (u32::MAX as int))
                    by (nonlinear_arith)
                    requires
                        w.len() <= usize::MAX,
                ;
                assert(w.push(m).drop_last() =~= w);
            }
            if taken_within(&m, now, window_secs) {
                count = count + 1;
                cpu = cpu + m.cpu_usage as u128;
                memory = memory + m.memory_usage as u128;
                tps = tps + m.tps as u128;
                players = players + m.player_count as u128;
                tick_time = tick_time + m.last_tick_time as u128;
                entities = entities + m.entities as u128;
                chunks = chunks + m.chunks_loaded as u128;
                uptime = m.uptime;
                taken_at = m.taken_at;
            }
            i = i + 1;
        }
        assert(self@.take(n as int) =~= self@);
        if count == 0 {
            None
        } else {
            let ghost w = recent(self@, now, window_secs);
            proof {
                lemma_average_bounds(w, Gauge::CpuUsage);
                lemma_average_bounds(w, Gauge::MemoryUsage);
                lemma_average_bounds(w, Gauge::Tps);
                lemma_average_bounds(w, Gauge::PlayerCount);
                lemma_average_bounds(w, Gauge::LastTickTime);
                lemma_average_bounds(w, Gauge::Entities);
                lemma_average_bounds(w, Gauge::ChunksLoaded);
            }
            let k = count as u128;
            Some(
                PerformanceMetrics {
                    cpu_usage: (cpu / k) as u32,
                    memory_usage: (memory / k) as u64,
                    tps: (tps / k) as u32,
                    player_count: (players / k) as u32,
                    uptime,
                    last_tick_time: (tick_time / k) as u32,
                    entities: (entities / k) as u32,
                    chunks_loaded: (chunks / k) as u32,
                    taken_at,
                },
            )
        }
    }

    /// The peak over the samples taken within `window_secs` seconds of `now`,
    /// or nothing if there is no such sample.
    pub fn peak(&self, window_secs: u64, now: Timestamp) -> (r: Option<PerformanceMetrics>)
        ensures
            r == if recent(self@, now, window_secs).len() == 0 {
                None
            } else {
                Some(peak_of(recent(self@, now, window_secs)))
            },
            r is Some ==> forall|g: Gauge|
                #[trigger] r.unwrap().gauge(g) == peak(recent(self@, now, window_secs), g),
    {
        let n = self.metrics.len();
        let mut count: usize = 0;
        let mut top = PerformanceMetrics {
            cpu_usage: 0,
            memory_usage: 0,
            tps: 0,
            player_count: 0,
            uptime: 0,
            last_tick_time: 0,
            entities: 0,
            chunks_loaded: 0,
            taken_at: Timestamp { millis: 0 },
        };
        let mut i: usize = 0;
        while i < n
            invariant
                n == self.metrics@.len(),
                i <= n,
                count <= i,
                count == recent(self@.take(i as int), now, window_secs).len(),
                top.cpu_usage == peak(recent(self@.take(i as int), now, window_secs), Gauge::CpuUsage),
                top.memory_usage == peak(
                    recent(self@.take(i as int), now, window_secs),
                    Gauge::MemoryUsage,
                ),
                top.tps == peak(recent(self@.take(i as int), now, window_secs), Gauge::Tps),
                top.player_count == peak(
                    recent(self@.take(i as int), now, window_secs),
                    Gauge::PlayerCount,
                ),
                top.last_tick_time == peak(
                    recent(self@.take(i as int), now, window_secs),
                    Gauge::LastTickTime,
                ),
                top.entities == peak(recent(self@.take(i as int), now, window_secs), Gauge::Entities),
                top.chunks_loaded == peak(
                    recent(self@.take(i as int), now, window_secs),
                    Gauge::ChunksLoaded,
                ),
                count > 0 ==> top.uptime == recent(
                    self@.take(i as int),
                    now,
                    window_secs,
                ).last().uptime,
                count > 0 ==> top.taken_at == recent(
                    self@.take(i as int),
                    now,
                    window_secs,
                ).last().taken_at,
            decreases n - i,
        {
            let m = self.metrics[i];
            proof {
                lemma_recent_step(self@, now, window_secs, i as int);
                let w = recent(self@.take(i as int), now, window_secs);
                assert(w.push(m).drop_last() =~= w);
            }
            if taken_within(&m, now, window_secs) {
                count = count + 1;
                if m.cpu_usage > top.cpu_usage {
                    top.cpu_usage = m.cpu_usage;
                }
                if m.memory_usage > top.memory_usage {
                    top.memory_usage = m.memory_usage;
                }
                if m.tps > top.tps {
                    top.tps = m.tps;
                }
                if m.player_count > top.player_count {
                    top.player_count = m.player_count;
                }
                if m.last_tick_time > top.last_tick_time {
                    top.last_tick_time = m.last_tick_time;
                }
                if m.entities > top.entities {
                    top.entities = m.entities;
                }
                if m.chunks_loaded > top.chunks_loaded {
                    top.chunks_loaded = m.chunks_loaded;
                }
                top.uptime = m.uptime;
                top.taken_at = m.taken_at;
            }
            i = i + 1;
        }
        assert(self@.take(n as int) =~= self@);
        if count == 0 {
            None
        } else {
            Some(top)
        }
    }
}

/// The sampler of one supervised process: stopped or running, with the
/// history of what it sampled.
#[derive(Debug)]
pub struct PerformanceMonitor {
    metrics: PerformanceHistory,
    process_id: u32,
    last_tick_time: u32,
    running: bool,
}

impl PerformanceMonitor {
    /// The retained samples, oldest first.
    pub closed spec fn history(&self) -> Seq<PerformanceMetrics> {
        self.metrics@
    }

    /// Whether the sampler is in its running state.
    pub closed spec fn running(&self) -> bool {
        self.running
    }

    /// The process that is sampled.
    pub closed spec fn pid(&self) -> u32 {
        self.process_id
    }

    /// The tick time that the next sample will carry.
    pub closed spec fn tick_time(&self) -> u32 {
        self.last_tick_time
    }

    /// The history is within its bound, and the bound is `MAX_SAMPLES`.
    pub closed spec fn wf(&self) -> bool {
        &&& self.metrics.wf()
        &&& self.metrics.capacity() == MAX_SAMPLES
    }

    /// A well-formed monitor never holds more than `MAX_SAMPLES` samples.
    pub proof fn lemma_history_bounded(&self)
        requires
            self.wf(),
        ensures
            self.history().len() <= MAX_SAMPLES,
    {
    }

    /// A stopped monitor of process `process_id` that has sampled nothing.
    pub fn new(process_id: u32) -> (m: PerformanceMonitor)
        ensures
            m.wf(),
            m.history() == Seq::<PerformanceMetrics>::empty(),
            !m.running(),
            m.pid() == process_id,
            m.tick_time() == 0,
    {
        PerformanceMonitor {
            metrics: PerformanceHistory::with_capacity(MAX_SAMPLES),
            process_id,
            last_tick_time: 0,
            running: false,
        }
    }

    /// Puts the sampler in its running state. The result says whether it was
    /// stopped before, that is, whether a sampling loop has to be started.
    pub fn start(&mut self) -> (started: bool)
        requires
            old(self).wf(),
        ensures
            final(self).wf(),
            final(self).running(),
            started == !old(self).running(),
            final(self).history() == old(self).history(),
            final(self).pid() == old(self).pid(),
            final(self).tick_time() == old(self).tick_time(),
    {
        let started = !self.running;
        self.running = true;
        started
    }

    /// Puts the sampler in its stopped state; the history stays.
    pub fn stop(&mut self)
        requires
            old(self).wf(),
        ensures
            final(self).wf(),
            !final(self).running(),
            final(self).history() == old(self).history(),
            final(self).pid() == old(self).pid(),
            final(self).tick_time() == old(self).tick_time(),
    {
        self.running = false;
    }

    /// Whether the sampler is in its running state.
    pub fn is_running(&self) -> (b: bool)
        ensures
            b == self.running(),
    {
        self.running
    }

    /// The process that is sampled.
    pub fn process_id(&self) -> (p: u32)
        ensures
            p == self.pid(),
    {
        self.process_id
    }

    /// Sets the tick time that the following samples carry.
    pub fn update_tick_time(&mut self, tick_time: u32)
        requires
            old(self).wf(),
        ensures
            final(self).wf(),
            final(self).tick_time() == tick_time,
            final(self).running() == old(self).running(),
            final(self).history() == old(self).history(),
            final(self).pid() == old(self).pid(),
    {
        self.last_tick_time = tick_time;
    }

    /// One tick of the sampler at the time `taken_at`. `reading` is what the
    /// process table gave for the sampled process, nothing if the process was
    /// not found; `uptime` is the whole seconds since sampling started.
    ///
    /// A stopped sampler records nothing. A running one appends
    /// `sample_of(reading, uptime, tick_time, taken_at)` and evicts the oldest
    /// sample beyond `MAX_SAMPLES`. The result says whether the sampler is
    /// running, that is, whether the loop goes on.
    pub fn tick(&mut self, reading: Option<ProcessReading>, uptime: u64, taken_at: Timestamp) -> (running:
        bool)
        requires
            old(self).wf(),
        ensures
            final(self).wf(),
            running == old(self).running(),
            final(self).running() == old(self).running(),
            final(self).pid() == old(self).pid(),
            final(self).tick_time() == old(self).tick_time(),
            final(self).history() == if old(self).running() {
                push_bounded(
                    old(self).history(),
                    sample_of(reading, uptime, old(self).tick_time(), taken_at),
                    MAX_SAMPLES as nat,
                )
            } else {
                old(self).history()
            },
            final(self).history().len() <= MAX_SAMPLES,
    {
        if !self.running {
            return false;
        }
        let sample = PerformanceMetrics {
            cpu_usage: match reading {
                Some(r) => r.cpu_usage,
                None => 0,
            },
            memory_usage: match reading {
                Some(r) => r.memory_usage,
                None => 0,
            },
            tps: DEFAULT_TPS,
            player_count: 0,
            uptime,
            last_tick_time: self.last_tick_time,
            entities: 0,
            chunks_loaded: 0,
            taken_at,
        };
        self.metrics.record(sample);
        true
    }

    /// The most recent sample, if any.
    pub fn get_current_metrics(&self) -> (r: Option<PerformanceMetrics>)
        ensures
            r == if self.history().len() == 0 {
                None
            } else {
                Some(self.history().last())
            },
    {
        self.metrics.latest()
    }

    /// A copy of the retained samples, oldest first.
    pub fn get_metrics_history(&self) -> (v: Vec<PerformanceMetrics>)
        ensures
            v@ == self.history(),
    {
        self.metrics.samples()
    }

    /// The average over the retained samples taken within `window_secs`
    /// seconds of `now`, or nothing if there is none.
    pub fn get_average_metrics(&self, window_secs: u64, now: Timestamp) -> (r: Option<
        PerformanceMetrics,
    >)
        ensures
            r == if recent(self.history(), now, window_secs).len() == 0 {
                None
            } else {
                Some(average_of(recent(self.history(), now, window_secs)))
            },
            r is Some ==> forall|g: Gauge|
                #[trigger] r.unwrap().gauge(g) == total(recent(self.history(), now, window_secs), g)
                    / recent(self.history(), now, window_secs).len() as int,
    {
        self.metrics.average(window_secs, now)
    }

    /// The peak over the retained samples taken within `window_secs` seconds
    /// of `now`, or nothing if there is none.
    pub fn get_peak_metrics(&self, window_secs: u64, now: Timestamp) -> (r: Option<
        PerformanceMetrics,
    >)
        ensures
            r == if recent(self.history(), now, window_secs).len() == 0 {
                None
            } else {
                Some(peak_of(recent(self.history(), now, window_secs)))
            },
            r is Some ==> forall|g: Gauge|
                #[trigger] r.unwrap().gauge(g) == peak(recent(self.history(), now, window_secs), g),
    {
        self.metrics.peak(window_secs, now)
    }
}

/// Recording never takes a history beyond its bound.
pub proof fn lemma_push_bounded_len<T>(s: Seq<T>, x: T, cap: nat)
    requires
        s.len() <= cap,
    ensures
        push_bounded(s, x, cap).len() <= cap,
        push_bounded(s, x, cap).len() == if s.len() < cap {
            s.len() + 1
        } else {
            cap
        },
{
}

/// A history that started empty holds exactly the most recent `cap` of the
/// samples recorded into it, or all of them while there are fewer: eviction
/// is first in, first out.
pub proof fn lemma_record_all_keeps_latest<T>(samples: Seq<T>, cap: nat)
    ensures
        record_all(Seq::<T>::empty(), samples, cap).len() <= cap,
        record_all(Seq::<T>::empty(), samples, cap) == if samples.len() <= cap {
            samples
        } else {
            samples.subrange(samples.len() - cap, samples.len() as int)
        },
    decreases samples.len(),
{
    if samples.len() > 0 {
        let before = samples.drop_last();
        lemma_record_all_keeps_latest(before, cap);
        let kept = record_all(Seq::<T>::empty(), before, cap);
        let after = record_all(Seq::<T>::empty(), samples, cap);
        assert(after == push_bounded(kept, samples.last(), cap));
        if samples.len() <= cap {
            assert(after =~= samples);
        } else {
            assert(after =~= samples.subrange(samples.len() - cap, samples.len() as int));
        }
    } else {
        assert(record_all(Seq::<T>::empty(), samples, cap) =~= samples);
    }
}

/// After more samples than the bound, the first sample recorded is gone and
/// the last one recorded is the newest of the history.
pub proof fn lemma_oldest_evicted_newest_kept<T>(samples: Seq<T>, cap: nat)
    requires
        cap >= 1,
        samples.len() > cap,
    ensures
        record_all(Seq::<T>::empty(), samples, cap).len() == cap,
        record_all(Seq::<T>::empty(), samples, cap).last() == samples.last(),
        record_all(Seq::<T>::empty(), samples, cap).first() == samples[samples.len() - cap],
        forall|i: int|
            0 <= i < cap ==> #[trigger] record_all(Seq::<T>::empty(), samples, cap)[i]
                == samples[samples.len() - cap + i],
{
    lemma_record_all_keeps_latest(samples, cap);
}

} // verus!
