//! Verified core of a host-telemetry dashboard: pure snapshot assembly,
//! numeric and uptime formatting, disk and network line construction,
//! HTML rendering, and the freshness rules of the snapshot cache.

pub mod cache;
pub mod disk;
pub mod format;
pub mod identity;
pub mod network;
pub mod snapshot;
pub mod text;
