//! Resource figures, limits, suggested shares and the usage tracker that
//! raises throttled warnings.
use vstd::prelude::*;

verus! {

broadcast use vstd::std_specs::vec::group_vec_axioms, vstd::seq::group_seq_axioms;

/// Kind of resource.
#[derive(Debug, Clone, Copy, PartialEq, Eq, Structural)]
pub enum ResourceType {
    CPU,
    Memory,
    Storage,
    Network,
}

/// A usage sample: CPU in hundredths of a percent, memory in MB, time in
/// seconds since the Unix epoch.
#[derive(Debug, Clone, Copy, PartialEq, Eq, Structural)]
pub struct ResourceStats {
    pub cpu_percent: u32,
    pub memory_mb: u32,
    pub timestamp: i64,
}

/// Global caps: CPU in hundredths of a percent, memory in MB.
#[derive(Debug, Clone, Copy, PartialEq, Eq, Structural)]
pub struct ResourceLimit {
    pub cpu_percent: u32,
    pub memory_mb: u32,
}

/// How a suggested per-agent share is computed.
#[derive(Debug, Clone, Copy, PartialEq, Eq, Structural)]
pub enum AllocationStrategy {
    /// Ninety percent of each limit, split evenly.
    Even,
    /// The minimum plus a priority-weighted part of what the minimums leave.
    PriorityBased,
    /// The minimums only.
    FCFS,
}

/// Suggests per-agent shares under global limits.
pub struct ResourceAllocator {
    pub limits: ResourceLimit,
    pub strategy: AllocationStrategy,
    /// Hundredths of a percent.
    pub min_cpu_per_agent: u32,
    /// MB.
    pub min_memory_per_agent: u32,
}

pub open spec fn min_int(a: int, b: int) -> int {
    if a < b {
        a
    } else {
        b
    }
}

/// `limit - used`, or zero when the minimums already exceed the limit.
pub open spec fn remainder(limit: int, used: int) -> int {
    if used < limit {
        limit - used
    } else {
        0
    }
}

/// The share of one resource before clamping.
pub open spec fn raw_share(strategy: AllocationStrategy, limit: int, min: int, priority: int, count: int) -> int {
    match strategy {
        AllocationStrategy::Even => if count > 0 {
            (limit * 9 / 10) / count
        } else {
            min
        },
        AllocationStrategy::PriorityBased => if count > 0 {
            min + remainder(limit, min * count) * priority / (10 * count)
        } else {
            min
        },
        AllocationStrategy::FCFS => min,
    }
}

/// The suggested share of one resource: the raw share held to the limit.
pub open spec fn share(strategy: AllocationStrategy, limit: int, min: int, priority: int, count: int) -> int {
    min_int(raw_share(strategy, limit, min, priority, count), limit)
}

fn compute_share(strategy: AllocationStrategy, limit: u32, min: u32, priority: u8, count: usize) -> (r: u32)
    ensures
        r == share(strategy, limit as int, min as int, priority as int, count as int),
{
    let lim = limit as u128;
    let mn = min as u128;
    let n = count as u128;
    let raw: u128 = match strategy {
        AllocationStrategy::Even => if count > 0 {
            (lim * 9 / 10) / n
        } else {
            mn
        },
        AllocationStrategy::PriorityBased => if count > 0 {
            assert((mn as int) * (n as int) <= (u32::MAX as int) * (usize::MAX as int)) by (nonlinear_arith)
                requires
                    mn <= u32::MAX,
                    n <= usize::MAX,
            ;
            let used = mn * n;
            let rem = if used < lim {
                lim - used
            } else {
                0
            };
            assert(rem <= u32::MAX);
            assert((rem as int) * (priority as int) <= (u32::MAX as int) * 255) by (nonlinear_arith)
                requires
                    rem <= u32::MAX,
                    priority <= 255,
            ;
            mn + rem * (priority as u128) / (10 * n)
        } else {
            mn
        },
        AllocationStrategy::FCFS => mn,
    };
    proof {
        if strategy == AllocationStrategy::Even && count > 0 {
            let a: int = lim as int * 9 / 10;
            assert(a / (n as int) <= a) by (nonlinear_arith)
                requires
                    n > 0,
                    a >= 0,
            ;
        }
    }
    if raw < lim {
        raw as u32
    } else {
        limit
    }
}

impl ResourceAllocator {
    /// An allocator with minimums of one percent of a CPU and 10 MB.
    pub fn new(limits: ResourceLimit, strategy: AllocationStrategy) -> (r: ResourceAllocator)
        ensures
            r.limits == limits,
            r.strategy == strategy,
            r.min_cpu_per_agent == 100,
            r.min_memory_per_agent == 10,
    {
        ResourceAllocator { limits, strategy, min_cpu_per_agent: 100, min_memory_per_agent: 10 }
    }

    /// The suggested `(cpu, memory)` share of an agent of this priority among
    /// `agent_count` agents.
    pub fn calculate_allocation(&self, priority: u8, agent_count: usize) -> (r: (u32, u32))
        ensures
            r.0 == share(self.strategy, self.limits.cpu_percent as int, self.min_cpu_per_agent as int, priority as int, agent_count as int),
            r.1 == share(self.strategy, self.limits.memory_mb as int, self.min_memory_per_agent as int, priority as int, agent_count as int),
            r.0 <= self.limits.cpu_percent,
            r.1 <= self.limits.memory_mb,
    {
        let cpu = compute_share(self.strategy, self.limits.cpu_percent, self.min_cpu_per_agent, priority, agent_count);
        let memory = compute_share(self.strategy, self.limits.memory_mb, self.min_memory_per_agent, priority, agent_count);
        (cpu, memory)
    }

    /// Sets the minimum guarantees.
    pub fn set_minimums(&mut self, min_cpu: u32, min_memory: u32)
        ensures
            final(self).min_cpu_per_agent == min_cpu,
            final(self).min_memory_per_agent == min_memory,
            final(self).limits == old(self).limits,
            final(self).strategy == old(self).strategy,
    {
        self.min_cpu_per_agent = min_cpu;
        self.min_memory_per_agent = min_memory;
    }
}

/// Seconds during which no further warning is raised after one.
pub const WARNING_INTERVAL_SECS: i64 = 60;

/// Usage reaches the warning threshold (in thousandths) of the limit:
/// `usage / limit >= threshold / 1000`.
pub open spec fn at_threshold(usage: int, limit: int, threshold_permille: int) -> bool {
    usage * 1000 >= threshold_permille * limit
}

/// A warning may be raised at `now` after one raised at `last`.
pub open spec fn warning_allowed(last: Option<i64>, now: i64) -> bool {
    match last {
        Some(t) => now - t >= WARNING_INTERVAL_SECS,
        None => true,
    }
}

/// `usage / limit` in thousandths, held to the range of `u32`; a zero limit
/// counts as the largest ratio.
pub open spec fn ratio_permille(usage: int, limit: int) -> int {
    if limit == 0 {
        u32::MAX as int
    } else {
        min_int(usage * 1000 / limit, u32::MAX as int)
    }
}

fn compute_ratio(usage: u32, limit: u32) -> (r: u32)
    ensures
        r == ratio_permille(usage as int, limit as int),
{
    if limit == 0 {
        u32::MAX
    } else {
        let q: u64 = (usage as u64) * 1000 / (limit as u64);
        if q < u32::MAX as u64 {
            q as u32
        } else {
            u32::MAX
        }
    }
}

/// Recent usage history and warning state.
pub struct ResourceTracker {
    cpu_history: Vec<(i64, u32)>,
    memory_history: Vec<(i64, u32)>,
    max_history: usize,
    last_warning: Option<i64>,
    warning_threshold: u32,
}

impl ResourceTracker {
    pub closed spec fn spec_cpu_history(&self) -> Seq<(i64, u32)> {
        self.cpu_history@
    }

    pub closed spec fn spec_memory_history(&self) -> Seq<(i64, u32)> {
        self.memory_history@
    }

    pub closed spec fn spec_max_history(&self) -> usize {
        self.max_history
    }

    /// When the last warning was raised.
    pub closed spec fn spec_last_warning(&self) -> Option<i64> {
        self.last_warning
    }

    /// The warning threshold in thousandths of the limit.
    pub closed spec fn spec_threshold(&self) -> u32 {
        self.warning_threshold
    }

    /// Histories hold at most `max_history` samples each.
    pub open spec fn wf(&self) -> bool {
        &&& self.spec_cpu_history().len() <= self.spec_max_history()
        &&& self.spec_memory_history().len() <= self.spec_max_history()
    }

    /// A tracker keeping `max_history` samples, warning at 80% of a limit.
    pub fn new(max_history: usize) -> (r: ResourceTracker)
        ensures
            r.wf(),
            r.spec_max_history() == max_history,
            r.spec_cpu_history().len() == 0,
            r.spec_memory_history().len() == 0,
            r.spec_last_warning() is None,
            r.spec_threshold() == 800,
    {
        ResourceTracker {
            cpu_history: Vec::new(),
            memory_history: Vec::new(),
            max_history,
            last_warning: None,
            warning_threshold: 800,
        }
    }

    /// A tracker with another warning threshold, in thousandths of a limit.
    pub fn with_threshold(max_history: usize, warning_threshold: u32) -> (r: ResourceTracker)
        ensures
            r.wf(),
            r.spec_max_history() == max_history,
            r.spec_cpu_history().len() == 0,
            r.spec_memory_history().len() == 0,
            r.spec_last_warning() is None,
            r.spec_threshold() == warning_threshold,
    {
        ResourceTracker {
            cpu_history: Vec::new(),
            memory_history: Vec::new(),
            max_history,
            last_warning: None,
            warning_threshold,
        }
    }

    /// Appends a sample, dropping the oldest one past `max_history`.
    pub fn add_stats(&mut self, stats: &ResourceStats)
        requires
            old(self).wf(),
        ensures
            final(self).wf(),
            final(self).spec_max_history() == old(self).spec_max_history(),
            final(self).spec_last_warning() == old(self).spec_last_warning(),
            final(self).spec_threshold() == old(self).spec_threshold(),
            final(self).spec_cpu_history() == bounded_push(old(self).spec_cpu_history(), (stats.timestamp, stats.cpu_percent), old(self).spec_max_history() as int),
            final(self).spec_memory_history() == bounded_push(old(self).spec_memory_history(), (stats.timestamp, stats.memory_mb), old(self).spec_max_history() as int),
    {
        self.cpu_history.push((stats.timestamp, stats.cpu_percent));
        if self.cpu_history.len() > self.max_history {
            self.cpu_history.remove(0);
        }
        self.memory_history.push((stats.timestamp, stats.memory_mb));
        if self.memory_history.len() > self.max_history {
            self.memory_history.remove(0);
        }
    }

    /// Decides at time `now` which resources the latest sample warns about:
    /// none within a minute of the previous warning; otherwise one warning
    /// for each resource whose usage reaches the threshold of its limit, CPU
    /// first, each with its usage in thousandths of the limit.
    pub fn should_warn_at(&mut self, limits: &ResourceLimit, now: i64) -> (r: Vec<(ResourceType, u32)>)
        ensures
            final(self).spec_cpu_history() == old(self).spec_cpu_history(),
            final(self).spec_memory_history() == old(self).spec_memory_history(),
            final(self).spec_max_history() == old(self).spec_max_history(),
            final(self).spec_threshold() == old(self).spec_threshold(),
            r@ == warnings_for(*old(self), *limits, now),
            r@.len() > 0 ==> final(self).spec_last_warning() == Some(now),
            r@.len() == 0 ==> final(self).spec_last_warning() == old(self).spec_last_warning(),
    {
        let mut out: Vec<(ResourceType, u32)> = Vec::new();
        if self.cpu_history.len() == 0 || self.memory_history.len() == 0 {
            assert(out@ =~= warnings_for(*old(self), *limits, now));
            return out;
        }
        let cpu_usage = self.cpu_history[self.cpu_history.len() - 1].1;
        let memory_usage = self.memory_history[self.memory_history.len() - 1].1;
        let allowed = match self.last_warning {
            Some(last) => (now as i128) - (last as i128) >= WARNING_INTERVAL_SECS as i128,
            None => true,
        };
        if allowed {
            let thr = self.warning_threshold as u64;
            assert((thr as int) * (limits.cpu_percent as int) <= (u32::MAX as int) * (u32::MAX as int)) by (nonlinear_arith)
                requires
                    thr <= u32::MAX,
                    limits.cpu_percent <= u32::MAX,
            ;
            assert((thr as int) * (limits.memory_mb as int) <= (u32::MAX as int) * (u32::MAX as int)) by (nonlinear_arith)
                requires
                    thr <= u32::MAX,
                    limits.memory_mb <= u32::MAX,
            ;
            if (cpu_usage as u64) * 1000 >= thr * (limits.cpu_percent as u64) {
                out.push((ResourceType::CPU, compute_ratio(cpu_usage, limits.cpu_percent)));
            }
            if (memory_usage as u64) * 1000 >= thr * (limits.memory_mb as u64) {
                out.push((ResourceType::Memory, compute_ratio(memory_usage, limits.memory_mb)));
            }
            if out.len() > 0 {
                self.last_warning = Some(now);
            }
        }
        assert(out@ =~= warnings_for(*old(self), *limits, now));
        out
    }

    /// Decides now which resources the latest sample warns about.
    pub fn should_warn(&mut self, limits: &ResourceLimit) -> (r: Vec<(ResourceType, u32)>)
        ensures
            final(self).spec_cpu_history() == old(self).spec_cpu_history(),
            final(self).spec_memory_history() == old(self).spec_memory_history(),
            final(self).spec_max_history() == old(self).spec_max_history(),
            final(self).spec_threshold() == old(self).spec_threshold(),
            exists|now: i64| r@ == warnings_for(*old(self), *limits, now) && (r@.len() > 0 ==> final(self).spec_last_warning() == Some(now)),
            r@.len() == 0 ==> final(self).spec_last_warning() == old(self).spec_last_warning(),
    {
        let now = crate::clock::unix_now();
        self.should_warn_at(limits, now)
    }

    /// Mean `(cpu, memory)` over the histories, rounded down; zeros when
    /// either is empty.
    pub fn get_average_usage(&self) -> (r: (u32, u32))
        ensures
            (self.spec_cpu_history().len() == 0 || self.spec_memory_history().len() == 0) ==> r == (0u32, 0u32),
            (self.spec_cpu_history().len() > 0 && self.spec_memory_history().len() > 0) ==> r.0 == sum_usage(self.spec_cpu_history()) / self.spec_cpu_history().len() as int
                && r.1 == sum_usage(self.spec_memory_history()) / self.spec_memory_history().len() as int,
    {
        if self.cpu_history.len() == 0 || self.memory_history.len() == 0 {
            return (0, 0);
        }
        let c = average(&self.cpu_history);
        let m = average(&self.memory_history);
        (c, m)
    }

    /// Largest `(cpu, memory)` in the histories; zeros when either is empty.
    pub fn get_max_usage(&self) -> (r: (u32, u32))
        ensures
            (self.spec_cpu_history().len() == 0 || self.spec_memory_history().len() == 0) ==> r == (0u32, 0u32),
            (self.spec_cpu_history().len() > 0 && self.spec_memory_history().len() > 0) ==> r.0 == max_usage(self.spec_cpu_history())
                && r.1 == max_usage(self.spec_memory_history()),
    {
        if self.cpu_history.len() == 0 || self.memory_history.len() == 0 {
            return (0, 0);
        }
        (maximum(&self.cpu_history), maximum(&self.memory_history))
    }
}

/// `s` with `x` appended, keeping the last `max` items.
pub open spec fn bounded_push(s: Seq<(i64, u32)>, x: (i64, u32), max: int) -> Seq<(i64, u32)> {
    if s.len() + 1 > max {
        s.push(x).remove(0)
    } else {
        s.push(x)
    }
}

/// The warnings the latest samples call for at time `now`: one for CPU and
/// one for memory when each reaches the threshold, nothing within a minute
/// of the previous warning.
pub open spec fn warnings_for(t: ResourceTracker, limits: ResourceLimit, now: i64) -> Seq<(ResourceType, u32)> {
    let c = t.spec_cpu_history();
    let m = t.spec_memory_history();
    if c.len() == 0 || m.len() == 0 || !warning_allowed(t.spec_last_warning(), now) {
        Seq::empty()
    } else {
        let cw = if at_threshold(c.last().1 as int, limits.cpu_percent as int, t.spec_threshold() as int) {
            seq![(ResourceType::CPU, ratio_permille(c.last().1 as int, limits.cpu_percent as int) as u32)]
        } else {
            Seq::empty()
        };
        let mw = if at_threshold(m.last().1 as int, limits.memory_mb as int, t.spec_threshold() as int) {
            seq![(ResourceType::Memory, ratio_permille(m.last().1 as int, limits.memory_mb as int) as u32)]
        } else {
            Seq::empty()
        };
        cw + mw
    }
}

/// Sum of the usage values of a history.
pub open spec fn sum_usage(s: Seq<(i64, u32)>) -> int
    decreases s.len(),
{
    if s.len() == 0 {
        0
    } else {
        sum_usage(s.drop_last()) + s.last().1
    }
}

/// Largest usage value of a history, zero when empty.
pub open spec fn max_usage(s: Seq<(i64, u32)>) -> u32
    decreases s.len(),
{
    if s.len() == 0 {
        0
    } else {
        let m = max_usage(s.drop_last());
        if s.last().1 > m {
            s.last().1
        } else {
            m
        }
    }
}

proof fn lemma_sum_usage_bound(s: Seq<(i64, u32)>)
    ensures
        0 <= sum_usage(s) <= s.len() * (u32::MAX as int),
    decreases s.len(),
{
    if s.len() > 0 {
        lemma_sum_usage_bound(s.drop_last());
    }
}

fn average(h: &Vec<(i64, u32)>) -> (r: u32)
    requires
        h@.len() > 0,
    ensures
        r == sum_usage(h@) / h@.len() as int,
{
    let mut total: u128 = 0;
    let mut i: usize = 0;
    while i < h.len()
        invariant
            0 <= i <= h@.len(),
            total == sum_usage(h@.subrange(0, i as int)),
            total <= i * (u32::MAX as int),
        decreases h@.len() - i,
    {
        assert(h@.subrange(0, i + 1).drop_last() =~= h@.subrange(0, i as int));
        assert(total + h[i as int].1 <= (i + 1) * (u32::MAX as int)) by (nonlinear_arith)
            requires
                total <= i * (u32::MAX as int),
                h[i as int].1 <= u32::MAX,
        ;
        assert(i + 1 <= usize::MAX);
        assert((i + 1) * (u32::MAX as int) <= (usize::MAX as int) * (u32::MAX as int)) by (nonlinear_arith)
            requires
                i + 1 <= usize::MAX,
        ;
        total = total + h[i].1 as u128;
        i = i + 1;
    }
    assert(h@.subrange(0, h@.len() as int) =~= h@);
    let avg = total / (h.len() as u128);
    proof {
        lemma_sum_usage_bound(h@);
        assert(sum_usage(h@) / (h@.len() as int) <= u32::MAX) by (nonlinear_arith)
            requires
                0 <= sum_usage(h@) <= h@.len() * (u32::MAX as int),
                h@.len() > 0,
        ;
    }
    avg as u32
}

fn maximum(h: &Vec<(i64, u32)>) -> (r: u32)
    ensures
        r == max_usage(h@),
{
    let mut m: u32 = 0;
    let mut i: usize = 0;
    while i < h.len()
        invariant
            0 <= i <= h@.len(),
            m == max_usage(h@.subrange(0, i as int)),
        decreases h@.len() - i,
    {
        assert(h@.subrange(0, i + 1).drop_last() =~= h@.subrange(0, i as int));
        if h[i].1 > m {
            m = h[i].1;
        }
        i = i + 1;
    }
    assert(h@.subrange(0, h@.len() as int) =~= h@);
    m
}

/// One check raises at most one warning per resource, and a check that
/// raises any comes at least a minute after the previous warning; so within
/// any window shorter than a minute each resource is warned about at most
/// once.
pub proof fn lemma_warnings_spaced(t: ResourceTracker, limits: ResourceLimit, now: i64)
    ensures
        warnings_for(t, limits, now).len() <= 2,
        forall|i: int, j: int| 0 <= i < j < warnings_for(t, limits, now).len() ==> warnings_for(t, limits, now)[i].0
            != warnings_for(t, limits, now)[j].0,
        warnings_for(t, limits, now).len() > 0 ==> (t.spec_last_warning() matches Some(last) ==> now - last >= WARNING_INTERVAL_SECS),
        t.spec_last_warning() matches Some(last) && now - last < WARNING_INTERVAL_SECS ==> warnings_for(t, limits, now).len() == 0,
{
}

} // verus!
