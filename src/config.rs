//! Configuration of the kernel and of the hardware manager, with defaults
//! and validation. Reading files and the environment happens in the host
//! process.
use vstd::prelude::*;
use vstd::string::*;

verus! {

/// Configuration of the hardware manager. CPU figures are in hundredths of
/// a percent, the alert threshold in thousandths of a limit.
#[derive(Debug, Clone)]
pub struct HMConfig {
    pub max_cpu_percent: u32,
    pub max_memory_mb: u32,
    pub refresh_interval_ms: u64,
    pub alert_threshold: u32,
    pub enable_graceful_degradation: bool,
    pub enable_detailed_metrics: bool,
    pub history_minutes: u32,
}

/// Thirty percent of a CPU.
pub fn default_max_cpu() -> (r: u32)
    ensures
        r == 3000,
{
    3000
}

/// 800 MB.
pub fn default_max_memory() -> (r: u32)
    ensures
        r == 800,
{
    800
}

/// One second.
pub fn default_refresh_interval() -> (r: u64)
    ensures
        r == 1000,
{
    1000
}

/// Eighty percent of a limit.
pub fn default_alert_threshold() -> (r: u32)
    ensures
        r == 800,
{
    800
}

/// One hour.
pub fn default_history_minutes() -> (r: u32)
    ensures
        r == 60,
{
    60
}

impl Default for HMConfig {
    fn default() -> (r: Self)
        ensures
            r.max_cpu_percent == 3000,
            r.max_memory_mb == 800,
            r.refresh_interval_ms == 1000,
            r.alert_threshold == 800,
            r.enable_graceful_degradation,
            r.enable_detailed_metrics,
            r.history_minutes == 60,
    {
        HMConfig {
            max_cpu_percent: default_max_cpu(),
            max_memory_mb: default_max_memory(),
            refresh_interval_ms: default_refresh_interval(),
            alert_threshold: default_alert_threshold(),
            enable_graceful_degradation: true,
            enable_detailed_metrics: true,
            history_minutes: default_history_minutes(),
        }
    }
}

/// Why a hardware-manager configuration is rejected.
#[derive(Debug, Clone, Copy, PartialEq, Eq, Structural)]
pub enum ConfigProblem {
    /// CPU limit not in (0, 100] percent.
    CpuOutOfRange,
    /// Memory limit of zero.
    ZeroMemory,
    /// Refresh interval of zero.
    ZeroRefreshInterval,
    /// Alert threshold not in (0, 1].
    ThresholdOutOfRange,
}

/// The text that reports a problem.
pub open spec fn problem_text(p: ConfigProblem) -> Seq<char> {
    match p {
        ConfigProblem::CpuOutOfRange => "Invalid CPU percentage: must be between 0 and 100"@,
        ConfigProblem::ZeroMemory => "Invalid memory limit: must be greater than 0"@,
        ConfigProblem::ZeroRefreshInterval => "Invalid refresh interval: must be greater than 0"@,
        ConfigProblem::ThresholdOutOfRange => "Invalid alert threshold: must be between 0 and 1"@,
    }
}

impl ConfigProblem {
    pub fn message(&self) -> (r: String)
        ensures
            r@ == problem_text(*self),
    {
        match self {
            ConfigProblem::CpuOutOfRange => String::from_str("Invalid CPU percentage: must be between 0 and 100"),
            ConfigProblem::ZeroMemory => String::from_str("Invalid memory limit: must be greater than 0"),
            ConfigProblem::ZeroRefreshInterval => String::from_str("Invalid refresh interval: must be greater than 0"),
            ConfigProblem::ThresholdOutOfRange => String::from_str("Invalid alert threshold: must be between 0 and 1"),
        }
    }
}

/// The first problem of a configuration, checked in this order: CPU,
/// memory, refresh interval, threshold.
pub open spec fn first_problem(c: HMConfig) -> Option<ConfigProblem> {
    if c.max_cpu_percent == 0 || c.max_cpu_percent > 10000 {
        Some(ConfigProblem::CpuOutOfRange)
    } else if c.max_memory_mb == 0 {
        Some(ConfigProblem::ZeroMemory)
    } else if c.refresh_interval_ms == 0 {
        Some(ConfigProblem::ZeroRefreshInterval)
    } else if c.alert_threshold == 0 || c.alert_threshold > 1000 {
        Some(ConfigProblem::ThresholdOutOfRange)
    } else {
        None
    }
}

impl HMConfig {
    /// Checks the limits: CPU in (0, 100] percent, memory and refresh
    /// interval positive, threshold in (0, 1].
    pub fn validate(&self) -> (r: Result<(), ConfigProblem>)
        ensures
            r is Ok <==> first_problem(*self) is None,
            r matches Err(p) ==> first_problem(*self) == Some(p),
    {
        if self.max_cpu_percent == 0 || self.max_cpu_percent > 10000 {
            return Err(ConfigProblem::CpuOutOfRange);
        }
        if self.max_memory_mb == 0 {
            return Err(ConfigProblem::ZeroMemory);
        }
        if self.refresh_interval_ms == 0 {
            return Err(ConfigProblem::ZeroRefreshInterval);
        }
        if self.alert_threshold == 0 || self.alert_threshold > 1000 {
            return Err(ConfigProblem::ThresholdOutOfRange);
        }
        Ok(())
    }
}

/// Hardware section of the kernel configuration.
#[derive(Debug, Clone)]
pub struct HardwareConfig {
    /// Hundredths of a percent.
    pub max_cpu: u32,
    /// MB.
    pub max_memory: u32,
    /// Milliseconds.
    pub check_interval: u64,
}

/// Five seconds.
pub fn default_check_interval() -> (r: u64)
    ensures
        r == 5000,
{
    5000
}

impl Default for HardwareConfig {
    fn default() -> (r: Self)
        ensures
            r.max_cpu == 3000,
            r.max_memory == 800,
            r.check_interval == 5000,
    {
        HardwareConfig {
            max_cpu: default_max_cpu(),
            max_memory: default_max_memory(),
            check_interval: default_check_interval(),
        }
    }
}

/// Kernel configuration.
#[derive(Debug, Clone)]
pub struct KernelConfig {
    pub plugin_directory: String,
    pub storage_directory: String,
    pub enable_tracing: bool,
    pub enable_zk_proofs: bool,
    pub max_agents: usize,
    pub max_plugins_per_agent: usize,
    pub hardware: HardwareConfig,
}

pub fn default_enable_tracing() -> (r: bool)
    ensures
        r,
{
    true
}

pub fn default_max_agents() -> (r: usize)
    ensures
        r == 100,
{
    100
}

pub fn default_max_plugins_per_agent() -> (r: usize)
    ensures
        r == 10,
{
    10
}

impl Default for KernelConfig {
    fn default() -> (r: Self)
        ensures
            r.plugin_directory@ == "./plugins"@,
            r.storage_directory@ == "./storage"@,
            r.enable_tracing,
            !r.enable_zk_proofs,
            r.max_agents == 100,
            r.max_plugins_per_agent == 10,
            r.hardware.max_cpu == 3000,
            r.hardware.max_memory == 800,
            r.hardware.check_interval == 5000,
    {
        KernelConfig {
            plugin_directory: String::from_str("./plugins"),
            storage_directory: String::from_str("./storage"),
            enable_tracing: default_enable_tracing(),
            enable_zk_proofs: false,
            max_agents: default_max_agents(),
            max_plugins_per_agent: default_max_plugins_per_agent(),
            hardware: HardwareConfig::default(),
        }
    }
}

} // verus!
