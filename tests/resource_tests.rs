use mcp_zero::config::{ConfigProblem, HMConfig};
use mcp_zero::hardware::{AgentAllocation, HMError, HardwareManager};
use mcp_zero::resource::{
    AllocationStrategy, ResourceAllocator, ResourceLimit, ResourceStats, ResourceTracker, ResourceType,
};

fn manager(cpu: u32, mem: u32) -> HardwareManager {
    let mut config = HMConfig::default();
    config.max_cpu_percent = cpu;
    config.max_memory_mb = mem;
    HardwareManager::new_at(config, 0)
}

#[test]
fn second_allocation_over_cpu_limit_is_refused() {
    let mut hm = manager(3000, 800);
    hm.allocate_resources(AgentAllocation::new("a", 2000, 400, 5)).unwrap();
    let r = hm.allocate_resources(AgentAllocation::new("b", 2000, 500, 5));
    assert!(matches!(r, Err(HMError::ResourceLimitExceeded(_))));
    assert_eq!(hm.allocations().len(), 1);
    assert_eq!(hm.allocations()[0].agent_id, "a");
    assert_eq!(hm.allocations()[0].cpu_percent, 2000);
    assert_eq!(hm.allocations()[0].memory_mb, 400);
}

#[test]
fn allocation_over_memory_limit_is_refused() {
    let mut hm = manager(3000, 800);
    hm.allocate_resources(AgentAllocation::new("a", 1000, 400, 5)).unwrap();
    assert!(hm.allocate_resources(AgentAllocation::new("b", 1000, 401, 5)).is_err());
    hm.allocate_resources(AgentAllocation::new("b", 1000, 400, 5)).unwrap();
    assert_eq!(hm.allocations().len(), 2);
}

#[test]
fn reallocation_replaces_own_entry() {
    let mut hm = manager(3000, 800);
    hm.allocate_resources(AgentAllocation::new("a", 2000, 400, 5)).unwrap();
    hm.allocate_resources(AgentAllocation::new("a", 3000, 800, 5)).unwrap();
    assert_eq!(hm.allocations().len(), 1);
    assert_eq!(hm.allocations()[0].cpu_percent, 3000);
}

#[test]
fn release_removes_or_reports_missing() {
    let mut hm = manager(3000, 800);
    assert!(matches!(hm.release_resources("a"), Err(HMError::ConfigError(_))));
    hm.allocate_resources(AgentAllocation::new("a", 100, 10, 1)).unwrap();
    hm.release_resources("a").unwrap();
    assert_eq!(hm.allocations().len(), 0);
}

#[test]
fn samples_are_checked_against_limits() {
    let mut hm = manager(3000, 800);
    let check = hm.apply_sample(3100, 100, 5);
    assert!(check.cpu_exceeded);
    assert!(!check.memory_exceeded);
    assert_eq!(hm.get_stats(), ResourceStats { cpu_percent: 3100, memory_mb: 100, timestamp: 5 });
    assert!(matches!(hm.check_limits(), Err(HMError::ResourceLimitExceeded(_))));
    hm.apply_sample(3000, 800, 6);
    assert!(hm.check_limits().is_ok());
}

#[test]
fn tracker_warns_once_then_throttles() {
    let limits = ResourceLimit { cpu_percent: 3000, memory_mb: 800 };
    let mut tracker = ResourceTracker::new(10);
    tracker.add_stats(&ResourceStats { cpu_percent: 2450, memory_mb: 10, timestamp: 1000 });
    let first = tracker.should_warn_at(&limits, 1000);
    assert_eq!(first.iter().map(|w| w.0).collect::<Vec<_>>(), vec![ResourceType::CPU]);
    tracker.add_stats(&ResourceStats { cpu_percent: 2500, memory_mb: 10, timestamp: 1010 });
    assert!(tracker.should_warn_at(&limits, 1010).is_empty());
    assert!(tracker.should_warn_at(&limits, 1059).is_empty());
    assert_eq!(tracker.should_warn_at(&limits, 1060).len(), 1);
}

#[test]
fn tracker_warns_on_memory_and_reports_ratio() {
    let limits = ResourceLimit { cpu_percent: 3000, memory_mb: 800 };
    let mut tracker = ResourceTracker::new(10);
    tracker.add_stats(&ResourceStats { cpu_percent: 100, memory_mb: 700, timestamp: 0 });
    assert_eq!(tracker.should_warn_at(&limits, 0), vec![(ResourceType::Memory, 875)]);
}

#[test]
fn tracker_below_threshold_is_quiet() {
    let limits = ResourceLimit { cpu_percent: 3000, memory_mb: 800 };
    let mut tracker = ResourceTracker::new(10);
    assert!(tracker.should_warn_at(&limits, 0).is_empty());
    tracker.add_stats(&ResourceStats { cpu_percent: 2399, memory_mb: 639, timestamp: 0 });
    assert!(tracker.should_warn_at(&limits, 0).is_empty());
}

#[test]
fn tracker_keeps_bounded_history() {
    let mut tracker = ResourceTracker::new(2);
    tracker.add_stats(&ResourceStats { cpu_percent: 100, memory_mb: 10, timestamp: 0 });
    tracker.add_stats(&ResourceStats { cpu_percent: 300, memory_mb: 30, timestamp: 1 });
    tracker.add_stats(&ResourceStats { cpu_percent: 200, memory_mb: 20, timestamp: 2 });
    assert_eq!(tracker.get_average_usage(), (250, 25));
    assert_eq!(tracker.get_max_usage(), (300, 30));
    assert_eq!(ResourceTracker::new(3).get_average_usage(), (0, 0));
}

#[test]
fn allocation_strategies() {
    let limits = ResourceLimit { cpu_percent: 3000, memory_mb: 800 };
    assert_eq!(ResourceAllocator::new(limits, AllocationStrategy::Even).calculate_allocation(5, 3), (900, 240));
    assert_eq!(
        ResourceAllocator::new(limits, AllocationStrategy::PriorityBased).calculate_allocation(5, 2),
        (800, 205)
    );
    assert_eq!(ResourceAllocator::new(limits, AllocationStrategy::FCFS).calculate_allocation(10, 4), (100, 10));
    let mut tight = ResourceAllocator::new(ResourceLimit { cpu_percent: 50, memory_mb: 5 }, AllocationStrategy::FCFS);
    assert_eq!(tight.calculate_allocation(1, 1), (50, 5));
    tight.set_minimums(10, 1);
    assert_eq!(tight.calculate_allocation(1, 1), (10, 1));
}

#[test]
fn priority_based_with_minimums_over_limit_keeps_minimums() {
    let limits = ResourceLimit { cpu_percent: 300, memory_mb: 100 };
    let a = ResourceAllocator::new(limits, AllocationStrategy::PriorityBased);
    assert_eq!(a.calculate_allocation(10, 5), (100, 20));
}

#[test]
fn config_validation() {
    assert!(HMConfig::default().validate().is_ok());
    let mut c = HMConfig::default();
    c.max_cpu_percent = 10001;
    assert_eq!(c.validate(), Err(ConfigProblem::CpuOutOfRange));
    let mut c = HMConfig::default();
    c.max_memory_mb = 0;
    assert_eq!(c.validate(), Err(ConfigProblem::ZeroMemory));
    let mut c = HMConfig::default();
    c.refresh_interval_ms = 0;
    assert_eq!(c.validate(), Err(ConfigProblem::ZeroRefreshInterval));
    let mut c = HMConfig::default();
    c.alert_threshold = 0;
    assert_eq!(c.validate(), Err(ConfigProblem::ThresholdOutOfRange));
}

#[test]
fn report_totals_reservations() {
    let mut hm = manager(3000, 800);
    hm.allocate_resources(AgentAllocation::new("a", 1000, 100, 1)).unwrap();
    hm.allocate_resources(AgentAllocation::new("b", 500, 200, 2)).unwrap();
    hm.apply_sample(1200, 300, 9);
    let report = hm.generate_report("1970-01-01T00:00:09+00:00");
    assert_eq!(report.allocation_count, 2);
    assert_eq!(report.total_cpu_percent, 1500);
    assert_eq!(report.total_memory_mb, 300);
    assert_eq!(report.stats.cpu_percent, 1200);
    assert_eq!(report.limits.memory_mb, 800);
    assert_eq!(report.details[1].agent_id, "b");
}

#[test]
fn tracker_warns_for_each_resource_at_threshold() {
    let limits = ResourceLimit { cpu_percent: 3000, memory_mb: 800 };
    let mut tracker = ResourceTracker::new(10);
    tracker.add_stats(&ResourceStats { cpu_percent: 2700, memory_mb: 720, timestamp: 0 });
    assert_eq!(
        tracker.should_warn_at(&limits, 0),
        vec![(ResourceType::CPU, 900), (ResourceType::Memory, 900)]
    );
    assert!(tracker.should_warn_at(&limits, 30).is_empty());
}
