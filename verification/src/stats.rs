//! Traffic statistics collection and aggregation.

pub mod cache;
pub mod collectors;
pub mod models;

pub use cache::{CachedTrafficRatio, StatsCache};
pub use collectors::{ConnectionCollector, InternalTimeSeries, TrafficCollector};
pub use models::{ConnectionStats, TrafficCounters};
