//! Settings of the station.

use crate::binary64::Binary64;
use vstd::prelude::*;

verus! {

/// The settings of the station.
#[derive(Clone, Debug)]
pub struct Config {
    pub observer: ObserverConfig,
    pub scheduler: SchedulerConfig,
    pub voicevox: VoicevoxConfig,
    pub storage: StorageConfig,
    pub sdr: SdrConfig,
    pub satellites: SatellitesConfig,
    pub discord: DiscordConfig,
    pub adsb: AdsbConfig,
}

/// Where the antenna stands, in WGS84.
#[derive(Clone, Copy, Debug, PartialEq, Eq, Structural)]
pub struct ObserverConfig {
    /// Degrees, north positive.
    pub latitude: Binary64,
    /// Degrees, east positive.
    pub longitude: Binary64,
    /// Metres above sea level.
    pub altitude_m: Binary64,
}

/// Thresholds and times of the scheduler.
#[derive(Clone, Copy, Debug, PartialEq, Eq, Structural)]
pub struct SchedulerConfig {
    pub min_elevation_deg: Binary64,
    pub pre_alert_minutes: Binary64,
    pub tle_update_interval_hours: u64,
    pub daily_schedule_enabled: bool,
    pub daily_schedule_hour_jst: u32,
    pub daily_schedule_minute_jst: u32,
    pub daily_schedule_send_on_startup: bool,
}

/// The speech engine.
#[derive(Clone, Debug)]
pub struct VoicevoxConfig {
    pub enabled: bool,
    pub host: String,
    pub speaker_id: u32,
    pub timeout_secs: u64,
}

/// Where recordings and images are kept.
#[derive(Clone, Debug)]
pub struct StorageConfig {
    pub output_dir: String,
}

/// The receiver.
#[derive(Clone, Copy, Debug, PartialEq, Eq, Structural)]
pub struct SdrConfig {
    /// Tuner gain in dB.
    pub gain: Binary64,
    /// Samples per second.
    pub sample_rate: u32,
    pub ppm_error: i32,
}

/// The Discord webhook.
#[derive(Clone, Debug)]
pub struct DiscordConfig {
    pub enabled: bool,
    pub webhook_url: Option<String>,
}

/// The aircraft monitor.
#[derive(Clone, Debug)]
pub struct AdsbConfig {
    pub enabled: bool,
    pub data_url: String,
    pub tar1090_url: String,
    pub poll_interval_secs: u64,
    pub max_distance_km: Binary64,
    pub min_altitude_m: Binary64,
    pub max_altitude_m: Binary64,
    pub cooldown_minutes: u64,
    pub fetch_routes: bool,
    pub fetch_photos: bool,
    pub discord_alert: bool,
    pub voice_alert: bool,
}

/// The Meteor-M weather satellites.
#[derive(Clone, Copy, Debug, PartialEq, Eq, Structural)]
pub struct MeteorConfig {
    pub enabled: bool,
}

/// The NOAA weather satellites.
#[derive(Clone, Copy, Debug, PartialEq, Eq, Structural)]
pub struct NoaaConfig {
    pub enabled: bool,
}

/// A CubeSat to follow.
#[derive(Clone, Debug)]
pub struct CubeSatTarget {
    pub name: String,
    pub norad_id: u32,
    pub freq: u64,
    pub kind: String,
}

/// The CubeSats to follow.
#[derive(Clone, Debug)]
pub struct CubeSatsConfig {
    pub enabled: bool,
    pub targets: Vec<CubeSatTarget>,
}

/// The International Space Station.
#[derive(Clone, Copy, Debug, PartialEq, Eq, Structural)]
pub struct IssConfig {
    pub enabled: bool,
    pub norad_id: u32,
    pub freq: u64,
}

/// The satellites to follow.
#[derive(Clone, Debug)]
pub struct SatellitesConfig {
    pub enable_meteor: bool,
    pub enable_noaa: bool,
    pub meteor: MeteorConfig,
    pub noaa: NoaaConfig,
    pub cubesats: CubeSatsConfig,
    pub iss: IssConfig,
}

impl SatellitesConfig {
    /// The Meteor-M satellites are followed: both of their switches are on.
    pub open spec fn meteor_on(self) -> bool {
        self.enable_meteor && self.meteor.enabled
    }

    /// The NOAA satellites are followed: both of their switches are on.
    pub open spec fn noaa_on(self) -> bool {
        self.enable_noaa && self.noaa.enabled
    }

    /// Whether the Meteor-M satellites are followed.
    pub fn is_meteor_enabled(&self) -> (r: bool)
        ensures
            r == self.meteor_on(),
    {
        self.enable_meteor && self.meteor.enabled
    }

    /// Whether the NOAA satellites are followed.
    pub fn is_noaa_enabled(&self) -> (r: bool)
        ensures
            r == self.noaa_on(),
    {
        self.enable_noaa && self.noaa.enabled
    }
}

impl Default for SatellitesConfig {
    /// Meteor-M only: the NOAA satellites no longer transmit, and CubeSats and the ISS are named
    /// by the user.
    fn default() -> (r: Self)
        ensures
            r.meteor_on(),
            !r.enable_noaa,
            !r.noaa.enabled,
            !r.cubesats.enabled,
            r.cubesats.targets@.len() == 0,
            r.iss == (IssConfig { enabled: false, norad_id: 25544, freq: 145_800_000 }),
    {
        SatellitesConfig {
            enable_meteor: true,
            enable_noaa: false,
            meteor: MeteorConfig { enabled: true },
            noaa: NoaaConfig { enabled: false },
            cubesats: CubeSatsConfig { enabled: false, targets: Vec::new() },
            iss: IssConfig { enabled: false, norad_id: 25544, freq: 145_800_000 },
        }
    }
}

/// How long a request to the speech engine may take: synthesis runs on the CPU.
pub fn default_timeout_secs() -> (r: u64)
    ensures
        r == 15,
{
    15
}

} // verus!
