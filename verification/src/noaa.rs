//! A smaller station that receives the NOAA weather satellites alone.

pub mod config;
pub mod decoder;
pub mod orbit;
pub mod receiver;
pub mod scheduler;
pub mod voicevox;
