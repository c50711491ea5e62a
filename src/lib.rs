//! A minimal agent-orchestration runtime: agents, an ethical gate, a
//! hash-chained execution trace and a hardware reservation ledger.
//!
//! CPU shares are integers in hundredths of a percent throughout (2450 is
//! 24.5%), so that every limit check is exact.
pub mod agent;
pub mod alert;
pub mod clock;
pub mod config;
pub mod digest;
pub mod duration;
pub mod ethical;
pub mod hardware;
pub mod json;
pub mod kernel;
pub mod plugin;
pub mod registry;
pub mod resource;
pub mod storage;
pub mod text;
pub mod trace;
