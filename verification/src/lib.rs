//! A verified core for an automatic satellite ground station.

pub mod text;
pub mod path;
pub mod binary64;
pub mod json;
pub mod config;
pub mod orbit;
pub mod passes;
pub mod tle;
pub mod clock;
pub mod discord;
pub mod decoder;
pub mod engine;
pub mod textmap;
pub mod adsb;
pub mod monitor;
pub mod cw;
pub mod receiver;
pub mod health;
pub mod metrics;
pub mod voicevox;
pub mod scheduler;
pub mod daemon;
pub mod worker;
pub mod noaa;
