//! Resource alerts: levels, the alert record, the dispatch filter and the
//! line the file handler appends. Handlers that write to a log or a file
//! run in the host process.
use vstd::prelude::*;
use vstd::string::*;
use crate::resource::ResourceType;

verus! {

/// Severity of an alert, ordered `Info < Warning < Critical < Fatal`.
#[derive(Debug, Clone, Copy, PartialEq, Eq, Structural)]
pub enum AlertLevel {
    Info,
    Warning,
    Critical,
    Fatal,
}

pub open spec fn level_rank(l: AlertLevel) -> int {
    match l {
        AlertLevel::Info => 0,
        AlertLevel::Warning => 1,
        AlertLevel::Critical => 2,
        AlertLevel::Fatal => 3,
    }
}

impl AlertLevel {
    /// Position in the severity order.
    pub fn rank(&self) -> (r: u8)
        ensures
            r == level_rank(*self),
    {
        match self {
            AlertLevel::Info => 0,
            AlertLevel::Warning => 1,
            AlertLevel::Critical => 2,
            AlertLevel::Fatal => 3,
        }
    }

    /// Whether an alert of this level reaches the minimum level `min`.
    pub fn meets(&self, min: AlertLevel) -> (r: bool)
        ensures
            r == (level_rank(*self) >= level_rank(min)),
    {
        self.rank() >= min.rank()
    }

    /// The level's name in capitals.
    pub fn name(&self) -> (r: &'static str)
        ensures
            r@ == level_name(*self),
    {
        match self {
            AlertLevel::Info => "INFO",
            AlertLevel::Warning => "WARNING",
            AlertLevel::Critical => "CRITICAL",
            AlertLevel::Fatal => "FATAL",
        }
    }
}

pub open spec fn level_name(l: AlertLevel) -> Seq<char> {
    match l {
        AlertLevel::Info => "INFO"@,
        AlertLevel::Warning => "WARNING"@,
        AlertLevel::Critical => "CRITICAL"@,
        AlertLevel::Fatal => "FATAL"@,
    }
}

/// An alert. Values are in the unit of their resource (hundredths of a
/// percent for CPU, MB for memory); the time is in Unix seconds.
#[derive(Debug, Clone)]
pub struct Alert {
    pub level: AlertLevel,
    pub resource_type: ResourceType,
    pub message: String,
    pub current_value: i64,
    pub threshold_value: i64,
    pub timestamp: i64,
}

impl Alert {
    /// An alert raised at time `now`.
    pub fn new_at(
        level: AlertLevel,
        resource_type: ResourceType,
        message: &str,
        current_value: i64,
        threshold_value: i64,
        now: i64,
    ) -> (r: Alert)
        ensures
            r.level == level,
            r.resource_type == resource_type,
            r.message@ == message@,
            r.current_value == current_value,
            r.threshold_value == threshold_value,
            r.timestamp == now,
    {
        Alert { level, resource_type, message: message.to_owned(), current_value, threshold_value, timestamp: now }
    }

    /// An alert raised now.
    pub fn new(level: AlertLevel, resource_type: ResourceType, message: &str, current_value: i64, threshold_value: i64) -> (r: Alert)
        ensures
            r.level == level,
            r.resource_type == resource_type,
            r.message@ == message@,
            r.current_value == current_value,
            r.threshold_value == threshold_value,
    {
        let now = crate::clock::unix_now();
        Alert::new_at(level, resource_type, message, current_value, threshold_value, now)
    }

    /// The line a file handler appends: `{time} [{LEVEL}] {message}` and a
    /// newline, where `time` is the alert's time as RFC 3339 text.
    pub fn file_line(&self, time_text: &str) -> (r: String)
        ensures
            r@ == time_text@ + " ["@ + level_name(self.level) + "] "@ + self.message@ + "\n"@,
    {
        let mut s = time_text.to_owned();
        s.append(" [");
        s.append(self.level.name());
        s.append("] ");
        s.append(self.message.as_str());
        s.append("\n");
        s
    }
}

/// Fans alerts out to handlers whose minimum level they reach.
#[derive(Debug, Clone, Copy)]
pub struct AlertManager {
    pub min_level: AlertLevel,
}

impl AlertManager {
    pub fn new(min_level: AlertLevel) -> (r: AlertManager)
        ensures
            r.min_level == min_level,
    {
        AlertManager { min_level }
    }

    /// Whether an alert is handed to the handlers.
    pub fn should_emit(&self, alert: &Alert) -> (r: bool)
        ensures
            r == (level_rank(alert.level) >= level_rank(self.min_level)),
    {
        alert.level.meets(self.min_level)
    }
}

/// The handler that writes alerts to the log at their level.
#[derive(Debug, Clone, Copy)]
pub struct ConsoleAlertHandler;

/// The handler that appends alert lines to a file.
#[derive(Debug, Clone)]
pub struct FileAlertHandler {
    pub path: String,
}

impl FileAlertHandler {
    pub fn new(path: &str) -> (r: FileAlertHandler)
        ensures
            r.path@ == path@,
    {
        FileAlertHandler { path: path.to_owned() }
    }

    pub fn path(&self) -> (r: &String)
        ensures
            r@ == self.path@,
    {
        &self.path
    }
}

} // verus!
