//! Settings of the weather station.

pub use crate::config::{
    default_timeout_secs, ObserverConfig, SchedulerConfig, StorageConfig, VoicevoxConfig,
};
