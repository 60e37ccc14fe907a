//! Reliable event distribution and aggregation for a home-energy-monitoring
//! platform: a publisher retry discipline, a consumer runner that turns
//! handler outcomes into acknowledgements, a device-directory projection and
//! per-hour measurement aggregation, all under at-least-once delivery.
pub mod calendar;
pub mod envelope;
pub mod store;
pub mod consumer;
pub mod publisher;
pub mod sync;
pub mod aggregate;
pub mod config;
pub mod accounts;
pub mod prefs;
pub mod wire;
