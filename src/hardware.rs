//! The hardware manager: the latest usage sample, limit checks and the
//! reservation ledger. Sampling the operating system happens in the host
//! process, which hands each sample to `apply_sample`.
use vstd::prelude::*;
use vstd::string::*;
use crate::config::HMConfig;
use crate::resource::{ResourceLimit, ResourceStats};
use crate::text::text_eq;

verus! {

broadcast use vstd::std_specs::vec::group_vec_axioms, vstd::seq::group_seq_axioms;

/// Errors of the hardware manager.
#[derive(Debug)]
pub enum HMError {
    ResourceLimitExceeded(String),
    MonitoringError(String),
    ConfigError(String),
    SystemError(String),
}

/// A reservation of an agent: CPU in hundredths of a percent, memory in MB,
/// priority from 0 to 10.
#[derive(Debug, Clone)]
pub struct AgentAllocation {
    pub agent_id: String,
    pub cpu_percent: u32,
    pub memory_mb: u32,
    pub priority: u8,
}

impl AgentAllocation {
    pub fn new(agent_id: &str, cpu_percent: u32, memory_mb: u32, priority: u8) -> (r: AgentAllocation)
        ensures
            r.agent_id@ == agent_id@,
            r.cpu_percent == cpu_percent,
            r.memory_mb == memory_mb,
            r.priority == priority,
    {
        AgentAllocation { agent_id: agent_id.to_owned(), cpu_percent, memory_mb, priority }
    }

    /// A field-by-field copy.
    pub fn copy(&self) -> (r: AgentAllocation)
        ensures
            r == *self,
    {
        AgentAllocation {
            agent_id: self.agent_id.clone(),
            cpu_percent: self.cpu_percent,
            memory_mb: self.memory_mb,
            priority: self.priority,
        }
    }
}

/// The reservations whose agent is not `id`, in order.
pub open spec fn without(s: Seq<AgentAllocation>, id: Seq<char>) -> Seq<AgentAllocation>
    decreases s.len(),
{
    if s.len() == 0 {
        Seq::empty()
    } else if s.last().agent_id@ == id {
        without(s.drop_last(), id)
    } else {
        without(s.drop_last(), id).push(s.last())
    }
}

/// Total reserved CPU.
pub open spec fn total_cpu(s: Seq<AgentAllocation>) -> int
    decreases s.len(),
{
    if s.len() == 0 {
        0
    } else {
        total_cpu(s.drop_last()) + s.last().cpu_percent
    }
}

/// Total reserved memory.
pub open spec fn total_memory(s: Seq<AgentAllocation>) -> int
    decreases s.len(),
{
    if s.len() == 0 {
        0
    } else {
        total_memory(s.drop_last()) + s.last().memory_mb
    }
}

/// Some reservation belongs to agent `id`.
pub open spec fn has_agent(s: Seq<AgentAllocation>, id: Seq<char>) -> bool {
    exists|i: int| 0 <= i < s.len() && (#[trigger] s[i]).agent_id@ == id
}

/// The ledger after adding `a`: every other reservation, then `a`.
pub open spec fn with_reservation(s: Seq<AgentAllocation>, a: AgentAllocation) -> Seq<AgentAllocation> {
    without(s, a.agent_id@).push(a)
}

/// `a` fits: with the reservations of the other agents it stays within both
/// limits.
pub open spec fn admissible(s: Seq<AgentAllocation>, a: AgentAllocation, limits: ResourceLimit) -> bool {
    &&& total_cpu(without(s, a.agent_id@)) + a.cpu_percent <= limits.cpu_percent
    &&& total_memory(without(s, a.agent_id@)) + a.memory_mb <= limits.memory_mb
}

proof fn lemma_totals_nonneg(s: Seq<AgentAllocation>)
    ensures
        total_cpu(s) >= 0,
        total_memory(s) >= 0,
    decreases s.len(),
{
    if s.len() > 0 {
        lemma_totals_nonneg(s.drop_last());
    }
}

proof fn lemma_without_shrinks(s: Seq<AgentAllocation>, id: Seq<char>)
    ensures
        total_cpu(without(s, id)) <= total_cpu(s),
        total_memory(without(s, id)) <= total_memory(s),
        has_agent(s, id) <==> without(s, id).len() < s.len(),
        without(s, id).len() <= s.len(),
        !has_agent(without(s, id), id),
    decreases s.len(),
{
    if s.len() > 0 {
        let p = s.drop_last();
        lemma_without_shrinks(p, id);
        lemma_totals_nonneg(p);
        let w = without(p, id);
        if s.last().agent_id@ != id {
            assert(w.push(s.last()).drop_last() =~= w);
            assert forall|i: int| 0 <= i < w.push(s.last()).len() implies (#[trigger] w.push(s.last())[i]).agent_id@ != id by {
                if i < w.len() {
                    assert(!has_agent(w, id));
                    assert(w.push(s.last())[i] == w[i]);
                }
            }
        }
        if has_agent(s, id) && s.last().agent_id@ != id {
            let i = choose|i: int| 0 <= i < s.len() && (#[trigger] s[i]).agent_id@ == id;
            assert(p[i] == s[i]);
            assert(has_agent(p, id));
        }
        if has_agent(p, id) {
            let i = choose|i: int| 0 <= i < p.len() && (#[trigger] p[i]).agent_id@ == id;
            assert(s[i] == p[i]);
        }
        if s.last().agent_id@ == id {
            assert(s[s.len() - 1].agent_id@ == id);
        }
    }
}

/// No two reservations belong to the same agent.
pub open spec fn unique_agents(s: Seq<AgentAllocation>) -> bool {
    forall|i: int, j: int| 0 <= i < j < s.len() ==> (#[trigger] s[i]).agent_id@ != (#[trigger] s[j]).agent_id@
}

proof fn lemma_without_unique(s: Seq<AgentAllocation>, id: Seq<char>)
    ensures
        forall|x: AgentAllocation| #[trigger] without(s, id).contains(x) ==> s.contains(x),
        unique_agents(s) ==> unique_agents(without(s, id)),
    decreases s.len(),
{
    if s.len() > 0 {
        let p = s.drop_last();
        lemma_without_unique(p, id);
        let w = without(p, id);
        assert forall|x: AgentAllocation| #[trigger] without(s, id).contains(x) implies s.contains(x) by {
            if w.contains(x) {
                let i = choose|i: int| 0 <= i < p.len() && p[i] == x;
                assert(s[i] == x);
            } else {
                assert(x == s.last());
                assert(s[s.len() - 1] == x);
            }
        }
        if unique_agents(s) {
            assert(unique_agents(p)) by {
                assert forall|i: int, j: int| 0 <= i < j < p.len() implies (#[trigger] p[i]).agent_id@ != (#[trigger] p[j]).agent_id@ by {
                    assert(s[i] == p[i] && s[j] == p[j]);
                }
            }
            if s.last().agent_id@ != id {
                let ws = w.push(s.last());
                assert forall|i: int, j: int| 0 <= i < j < ws.len() implies (#[trigger] ws[i]).agent_id@ != (#[trigger] ws[j]).agent_id@ by {
                    if j == w.len() {
                        assert(w.contains(ws[i]));
                        let k = choose|k: int| 0 <= k < p.len() && p[k] == ws[i];
                        assert(s[k] == p[k]);
                        assert(s[s.len() - 1] == s.last());
                    } else {
                        assert(ws[i] == w[i] && ws[j] == w[j]);
                    }
                }
            }
        }
    }
}

/// Which limits a sample exceeds.
#[derive(Debug, Clone, Copy, PartialEq, Eq, Structural)]
pub struct SampleCheck {
    pub cpu_exceeded: bool,
    pub memory_exceeded: bool,
}

/// A summary of the manager's state: the latest sample, the limits, and the
/// number and totals of the reservations, with each reservation.
#[derive(Debug)]
pub struct ResourceReport {
    pub timestamp: String,
    pub stats: ResourceStats,
    pub limits: ResourceLimit,
    pub allocation_count: usize,
    pub total_cpu_percent: u64,
    pub total_memory_mb: u64,
    pub details: Vec<AgentAllocation>,
}

/// The hardware manager.
pub struct HardwareManager {
    limits: ResourceLimit,
    stats: ResourceStats,
    allocations: Vec<AgentAllocation>,
    config: HMConfig,
    last_update: i64,
}

impl HardwareManager {
    pub closed spec fn spec_limits(&self) -> ResourceLimit {
        self.limits
    }

    pub closed spec fn spec_stats(&self) -> ResourceStats {
        self.stats
    }

    /// The reservations, in order of admission.
    pub closed spec fn spec_allocations(&self) -> Seq<AgentAllocation> {
        self.allocations@
    }

    pub closed spec fn spec_config(&self) -> HMConfig {
        self.config
    }

    /// The reservations never exceed either global limit.
    pub open spec fn wf(&self) -> bool {
        &&& total_cpu(self.spec_allocations()) <= self.spec_limits().cpu_percent
        &&& total_memory(self.spec_allocations()) <= self.spec_limits().memory_mb
        &&& unique_agents(self.spec_allocations())
    }

    /// A manager with the configuration's limits, an empty ledger and a zero
    /// sample taken at `now`.
    pub fn new_at(config: HMConfig, now: i64) -> (r: HardwareManager)
        ensures
            r.wf(),
            r.spec_limits() == (ResourceLimit { cpu_percent: config.max_cpu_percent, memory_mb: config.max_memory_mb }),
            r.spec_allocations().len() == 0,
            r.spec_stats() == (ResourceStats { cpu_percent: 0, memory_mb: 0, timestamp: now }),
            r.spec_config() == config,
    {
        let limits = ResourceLimit { cpu_percent: config.max_cpu_percent, memory_mb: config.max_memory_mb };
        HardwareManager {
            limits,
            stats: ResourceStats { cpu_percent: 0, memory_mb: 0, timestamp: now },
            allocations: Vec::new(),
            config,
            last_update: now,
        }
    }

    /// A manager whose first sample is stamped now.
    pub fn new(config: HMConfig) -> (r: HardwareManager)
        ensures
            r.wf(),
            r.spec_limits() == (ResourceLimit { cpu_percent: config.max_cpu_percent, memory_mb: config.max_memory_mb }),
            r.spec_allocations().len() == 0,
    {
        let now = crate::clock::unix_now();
        HardwareManager::new_at(config, now)
    }

    pub fn limits(&self) -> (r: ResourceLimit)
        ensures
            r == self.spec_limits(),
    {
        self.limits
    }

    pub fn config(&self) -> (r: &HMConfig)
        ensures
            *r == self.spec_config(),
    {
        &self.config
    }

    /// The latest sample.
    pub fn get_stats(&self) -> (r: ResourceStats)
        ensures
            r == self.spec_stats(),
    {
        self.stats
    }

    /// The reservations.
    pub fn allocations(&self) -> (r: &Vec<AgentAllocation>)
        ensures
            r@ == self.spec_allocations(),
    {
        &self.allocations
    }

    /// Records a sample taken at `now` and tells which limits it exceeds.
    pub fn apply_sample(&mut self, cpu_percent: u32, memory_mb: u32, now: i64) -> (r: SampleCheck)
        requires
            old(self).wf(),
        ensures
            final(self).wf(),
            final(self).spec_stats() == (ResourceStats { cpu_percent, memory_mb, timestamp: now }),
            final(self).spec_limits() == old(self).spec_limits(),
            final(self).spec_allocations() == old(self).spec_allocations(),
            final(self).spec_config() == old(self).spec_config(),
            r.cpu_exceeded == (cpu_percent > old(self).spec_limits().cpu_percent),
            r.memory_exceeded == (memory_mb > old(self).spec_limits().memory_mb),
    {
        self.stats = ResourceStats { cpu_percent, memory_mb, timestamp: now };
        self.last_update = now;
        SampleCheck {
            cpu_exceeded: cpu_percent > self.limits.cpu_percent,
            memory_exceeded: memory_mb > self.limits.memory_mb,
        }
    }

    /// Checks the latest sample against the limits, CPU first.
    pub fn check_limits(&self) -> (r: Result<(), HMError>)
        ensures
            r is Ok <==> self.spec_stats().cpu_percent <= self.spec_limits().cpu_percent
                && self.spec_stats().memory_mb <= self.spec_limits().memory_mb,
            r matches Err(e) ==> e is ResourceLimitExceeded,
    {
        if self.stats.cpu_percent > self.limits.cpu_percent {
            return Err(HMError::ResourceLimitExceeded(String::from_str("CPU usage exceeded limit")));
        }
        if self.stats.memory_mb > self.limits.memory_mb {
            return Err(HMError::ResourceLimitExceeded(String::from_str("Memory usage exceeded limit")));
        }
        Ok(())
    }

    /// Admits a reservation when, with the reservations of all other
    /// agents, it stays within both limits; it replaces any earlier
    /// reservation of the same agent. Otherwise nothing changes.
    pub fn allocate_resources(&mut self, allocation: AgentAllocation) -> (r: Result<(), HMError>)
        requires
            old(self).wf(),
        ensures
            final(self).wf(),
            final(self).spec_limits() == old(self).spec_limits(),
            final(self).spec_stats() == old(self).spec_stats(),
            r is Ok <==> admissible(old(self).spec_allocations(), allocation, old(self).spec_limits()),
            r is Ok ==> final(self).spec_allocations() == with_reservation(old(self).spec_allocations(), allocation),
            r is Err ==> final(self).spec_allocations() == old(self).spec_allocations(),
            r matches Err(e) ==> e is ResourceLimitExceeded,
    {
        let ghost s = self.allocations@;
        let mut kept: Vec<AgentAllocation> = Vec::new();
        let mut cpu: u64 = allocation.cpu_percent as u64;
        let mut memory: u64 = allocation.memory_mb as u64;
        let mut i: usize = 0;
        proof {
            lemma_without_shrinks(s, allocation.agent_id@);
        }
        while i < self.allocations.len()
            invariant
                0 <= i <= s.len(),
                s == self.allocations@,
                total_cpu(s) <= self.limits.cpu_percent,
                total_memory(s) <= self.limits.memory_mb,
                kept@ == without(s.subrange(0, i as int), allocation.agent_id@),
                cpu == total_cpu(kept@) + allocation.cpu_percent,
                memory == total_memory(kept@) + allocation.memory_mb,
            decreases s.len() - i,
        {
            let ghost pre = s.subrange(0, i as int);
            assert(s.subrange(0, i + 1).drop_last() =~= pre);
            proof {
                lemma_without_shrinks(pre, allocation.agent_id@);
                lemma_prefix_totals(s, i as int);
                lemma_totals_nonneg(without(pre, allocation.agent_id@));
            }
            let a = &self.allocations[i];
            if !text_eq(a.agent_id.as_str(), allocation.agent_id.as_str()) {
                let ghost before = kept@;
                cpu = cpu + a.cpu_percent as u64;
                memory = memory + a.memory_mb as u64;
                kept.push(a.copy());
                assert(kept@.drop_last() =~= before);
            }
            i = i + 1;
        }
        assert(s.subrange(0, s.len() as int) =~= s);
        if cpu > self.limits.cpu_percent as u64 {
            return Err(HMError::ResourceLimitExceeded(String::from_str("Total CPU allocation would exceed limit")));
        }
        if memory > self.limits.memory_mb as u64 {
            return Err(HMError::ResourceLimitExceeded(String::from_str("Total memory allocation would exceed limit")));
        }
        let ghost w = kept@;
        let ghost a = allocation;
        kept.push(allocation);
        assert(kept@.drop_last() =~= w);
        proof {
            lemma_without_unique(s, a.agent_id@);
            lemma_without_shrinks(s, a.agent_id@);
            let ks = kept@;
            assert forall|i: int, j: int| 0 <= i < j < ks.len() implies (#[trigger] ks[i]).agent_id@ != (#[trigger] ks[j]).agent_id@ by {
                if j == w.len() {
                    assert(ks[i] == w[i]);
                    assert(ks[j] == a);
                } else {
                    assert(ks[i] == w[i] && ks[j] == w[j]);
                }
            }
        }
        self.allocations = kept;
        Ok(())
    }

    /// Reports the state, stamped with `timestamp` (RFC 3339 text of the
    /// latest sample's time).
    pub fn generate_report(&self, timestamp: &str) -> (r: ResourceReport)
        requires
            self.wf(),
        ensures
            r.timestamp@ == timestamp@,
            r.stats == self.spec_stats(),
            r.limits == self.spec_limits(),
            r.allocation_count == self.spec_allocations().len(),
            r.total_cpu_percent == total_cpu(self.spec_allocations()),
            r.total_memory_mb == total_memory(self.spec_allocations()),
            r.details@ == self.spec_allocations(),
    {
        let ghost s = self.allocations@;
        let mut cpu: u64 = 0;
        let mut memory: u64 = 0;
        let mut details: Vec<AgentAllocation> = Vec::new();
        let mut i: usize = 0;
        while i < self.allocations.len()
            invariant
                0 <= i <= s.len(),
                s == self.allocations@,
                total_cpu(s) <= self.limits.cpu_percent,
                total_memory(s) <= self.limits.memory_mb,
                cpu == total_cpu(s.subrange(0, i as int)),
                memory == total_memory(s.subrange(0, i as int)),
                details@ == s.subrange(0, i as int),
            decreases s.len() - i,
        {
            assert(s.subrange(0, i + 1).drop_last() =~= s.subrange(0, i as int));
            proof {
                lemma_prefix_totals(s, i + 1);
                lemma_totals_nonneg(s.subrange(0, i as int));
            }
            let a = &self.allocations[i];
            cpu = cpu + a.cpu_percent as u64;
            memory = memory + a.memory_mb as u64;
            details.push(a.copy());
            i = i + 1;
            assert(details@ =~= s.subrange(0, i as int));
        }
        assert(s.subrange(0, s.len() as int) =~= s);
        ResourceReport {
            timestamp: timestamp.to_owned(),
            stats: self.stats,
            limits: self.limits,
            allocation_count: self.allocations.len(),
            total_cpu_percent: cpu,
            total_memory_mb: memory,
            details,
        }
    }

    /// Removes the reservation of an agent; fails when it has none.
    pub fn release_resources(&mut self, agent_id: &str) -> (r: Result<(), HMError>)
        requires
            old(self).wf(),
        ensures
            final(self).wf(),
            final(self).spec_limits() == old(self).spec_limits(),
            final(self).spec_stats() == old(self).spec_stats(),
            r is Ok <==> has_agent(old(self).spec_allocations(), agent_id@),
            final(self).spec_allocations() == without(old(self).spec_allocations(), agent_id@),
            r matches Err(e) ==> e is ConfigError,
    {
        let ghost s = self.allocations@;
        let mut kept: Vec<AgentAllocation> = Vec::new();
        let mut i: usize = 0;
        while i < self.allocations.len()
            invariant
                0 <= i <= s.len(),
                s == self.allocations@,
                kept@ == without(s.subrange(0, i as int), agent_id@),
            decreases s.len() - i,
        {
            assert(s.subrange(0, i + 1).drop_last() =~= s.subrange(0, i as int));
            let a = &self.allocations[i];
            if !text_eq(a.agent_id.as_str(), agent_id) {
                let ghost before = kept@;
                kept.push(a.copy());
                assert(kept@.drop_last() =~= before);
            }
            i = i + 1;
        }
        assert(s.subrange(0, s.len() as int) =~= s);
        proof {
            lemma_without_shrinks(s, agent_id@);
            lemma_without_unique(s, agent_id@);
        }
        let removed = kept.len() < self.allocations.len();
        self.allocations = kept;
        if removed {
            Ok(())
        } else {
            let mut msg = String::from_str("No allocation found for agent ");
            msg.append(agent_id);
            Err(HMError::ConfigError(msg))
        }
    }
}

proof fn lemma_prefix_totals(s: Seq<AgentAllocation>, j: int)
    requires
        0 <= j <= s.len(),
    ensures
        total_cpu(s.subrange(0, j)) <= total_cpu(s),
        total_memory(s.subrange(0, j)) <= total_memory(s),
    decreases s.len(),
{
    if j < s.len() {
        lemma_prefix_totals(s.drop_last(), j);
        assert(s.drop_last().subrange(0, j) =~= s.subrange(0, j));
    } else {
        assert(s.subrange(0, j) =~= s);
    }
}

/// After any admission or release the reservations stay within both
/// limits: admission happens only when the result fits, and a release only
/// removes reservations.
pub proof fn lemma_ledger_within_limits(s: Seq<AgentAllocation>, a: AgentAllocation, id: Seq<char>, limits: ResourceLimit)
    requires
        total_cpu(s) <= limits.cpu_percent,
        total_memory(s) <= limits.memory_mb,
    ensures
        admissible(s, a, limits) ==> total_cpu(with_reservation(s, a)) <= limits.cpu_percent && total_memory(with_reservation(s, a)) <= limits.memory_mb,
        unique_agents(s) ==> unique_agents(without(s, id)),
        total_cpu(without(s, id)) <= limits.cpu_percent,
        total_memory(without(s, id)) <= limits.memory_mb,
{
    let w = without(s, a.agent_id@);
    assert(with_reservation(s, a).drop_last() =~= w);
    lemma_without_shrinks(s, id);
    lemma_without_unique(s, id);
}

} // verus!
