//! Satellites and their passes over the antenna.

use crate::binary64::{
    in_one_turn, law_small_integers_are_exact, law_small_integers_are_in_order,
    law_whole_degrees_in_sixteenths, of_integer, sixteenth, sixteenth_of, Binary64, INFINITY,
};
use crate::text::{has_text, lowercase, occurs_at, same, unicode_lower};
use vstd::prelude::*;

pub use crate::passes::OrbitPredictor;
pub use crate::tle::{build_satellite_infos_from_db, fetch_all_tles, parse_3line_tles};

verus! {

/// How a satellite transmits.
#[derive(Clone, Copy, Debug, PartialEq, Eq, Structural)]
pub enum SignalType {
    /// NOAA APT: a 2.4 kHz AM subcarrier on FM.
    Apt,
    /// Meteor-M LRPT: 72k/80k QPSK.
    Lrpt,
    /// CubeSat camera images in packets.
    CubeSatSsdv,
    /// CubeSat slow-scan television.
    CubeSatSstv,
    /// CubeSat BPSK or AFSK telemetry.
    CubeSatTelemetry,
    /// CubeSat Morse beacon.
    MorseCw,
    /// Slow-scan television from the ISS.
    IssSstv,
    /// APRS packets from the ISS.
    AprsPacket,
    /// An FM voice repeater.
    FmRepeater,
}

/// The signal type that a lower-case name in the settings stands for.
pub open spec fn signal_named(name: Seq<char>) -> SignalType {
    if name == "camerasstv"@ || name == "sstv"@ || name == "cubesatsstv"@ {
        SignalType::CubeSatSstv
    } else if name == "isssstv"@ || name == "iss"@ {
        SignalType::IssSstv
    } else if name == "ssdvcamera"@ || name == "camerassdv"@ || name == "ssdv"@ {
        SignalType::CubeSatSsdv
    } else if name == "morsecw"@ || name == "morse"@ || name == "cw"@ {
        SignalType::MorseCw
    } else if name == "aprs"@ || name == "issaprs"@ || name == "packet"@ {
        SignalType::AprsPacket
    } else if name == "fmrepeater"@ || name == "fmvoice"@ || name == "repeater"@ {
        SignalType::FmRepeater
    } else if name == "lrpt"@ {
        SignalType::Lrpt
    } else if name == "apt"@ {
        SignalType::Apt
    } else {
        SignalType::CubeSatTelemetry
    }
}

impl SignalType {
    /// The displayed name.
    pub open spec fn display(self) -> Seq<char> {
        match self {
            SignalType::Apt => "NOAA APT (アナログ)"@,
            SignalType::Lrpt => "Meteor LRPT (デジタルQPSK)"@,
            SignalType::CubeSatSsdv => "CubeSat SSDV (カメラ画像)"@,
            SignalType::CubeSatSstv => "CubeSat SSTV (カメラ画像)"@,
            SignalType::CubeSatTelemetry => "CubeSat Telemetry (テレメトリ)"@,
            SignalType::MorseCw => "CubeSat Morse (モールスCW)"@,
            SignalType::IssSstv => "ISS SSTV (宇宙ステーション画像)"@,
            SignalType::AprsPacket => "ISS APRS (1200bps パケット)"@,
            SignalType::FmRepeater => "FM Repeater (音声中継器)"@,
        }
    }

    /// The signal is recorded as raw IQ samples, not as demodulated audio.
    pub open spec fn raw_iq(self) -> bool {
        match self {
            SignalType::Lrpt
            | SignalType::CubeSatSsdv
            | SignalType::CubeSatTelemetry
            | SignalType::MorseCw => true,
            SignalType::Apt
            | SignalType::IssSstv
            | SignalType::CubeSatSstv
            | SignalType::AprsPacket
            | SignalType::FmRepeater => false,
        }
    }

    /// The displayed name.
    pub fn name(&self) -> (r: &'static str)
        ensures
            r@ == self.display(),
    {
        match self {
            SignalType::Apt => "NOAA APT (アナログ)",
            SignalType::Lrpt => "Meteor LRPT (デジタルQPSK)",
            SignalType::CubeSatSsdv => "CubeSat SSDV (カメラ画像)",
            SignalType::CubeSatSstv => "CubeSat SSTV (カメラ画像)",
            SignalType::CubeSatTelemetry => "CubeSat Telemetry (テレメトリ)",
            SignalType::MorseCw => "CubeSat Morse (モールスCW)",
            SignalType::IssSstv => "ISS SSTV (宇宙ステーション画像)",
            SignalType::AprsPacket => "ISS APRS (1200bps パケット)",
            SignalType::FmRepeater => "FM Repeater (音声中継器)",
        }
    }

    /// The signal type that a name in the settings stands for, whatever its case.
    pub fn from_str_type(s: &str) -> (r: Self)
        ensures
            r == signal_named(unicode_lower(s@)),
    {
        let lower: String = lowercase(s);
        Self::from_lower_name(lower.as_str())
    }

    /// The signal type that a lower-case name in the settings stands for.
    pub fn from_lower_name(name: &str) -> (r: Self)
        ensures
            r == signal_named(name@),
    {
        if same(name, "camerasstv") || same(name, "sstv") || same(name, "cubesatsstv") {
            SignalType::CubeSatSstv
        } else if same(name, "isssstv") || same(name, "iss") {
            SignalType::IssSstv
        } else if same(name, "ssdvcamera") || same(name, "camerassdv") || same(name, "ssdv") {
            SignalType::CubeSatSsdv
        } else if same(name, "morsecw") || same(name, "morse") || same(name, "cw") {
            SignalType::MorseCw
        } else if same(name, "aprs") || same(name, "issaprs") || same(name, "packet") {
            SignalType::AprsPacket
        } else if same(name, "fmrepeater") || same(name, "fmvoice") || same(name, "repeater") {
            SignalType::FmRepeater
        } else if same(name, "lrpt") {
            SignalType::Lrpt
        } else if same(name, "apt") {
            SignalType::Apt
        } else {
            SignalType::CubeSatTelemetry
        }
    }

    /// Whether the signal is recorded as raw IQ samples, not as demodulated audio.
    pub fn is_raw_iq(&self) -> (r: bool)
        ensures
            r == self.raw_iq(),
    {
        match self {
            SignalType::Apt
            | SignalType::IssSstv
            | SignalType::CubeSatSstv
            | SignalType::AprsPacket
            | SignalType::FmRepeater => false,
            SignalType::Lrpt
            | SignalType::CubeSatSsdv
            | SignalType::CubeSatTelemetry
            | SignalType::MorseCw => true,
        }
    }
}

/// A satellite to follow, with its orbital elements.
#[derive(Clone, Debug)]
pub struct SatelliteInfo {
    pub name: String,
    pub norad_id: u32,
    pub frequency_hz: u64,
    pub signal_type: SignalType,
    pub line1: String,
    pub line2: String,
}

/// A pass of a satellite. Times are milliseconds of Unix time.
#[derive(Clone, Debug)]
pub struct SatellitePass {
    pub satellite_name: String,
    pub frequency_hz: u64,
    pub signal_type: SignalType,
    /// Acquisition of signal: the satellite rises above the least elevation.
    pub aos: i64,
    /// Loss of signal: it sinks below.
    pub los: i64,
    pub max_elevation_deg: Binary64,
    /// Azimuth at the greatest elevation: 0 north, 90 east.
    pub peak_azimuth_deg: Binary64,
}

/// The sixteenth of the compass that an azimuth lies in, from north clockwise. Each reaches
/// 11.25 degrees to both sides of its centre, the lower edge included. An infinite azimuth counts
/// to the last.
pub open spec fn compass_point(azimuth: Binary64) -> int {
    if azimuth.size >= INFINITY {
        15
    } else {
        sixteenth(in_one_turn(azimuth))
    }
}

/// The name of a sixteenth of the compass.
pub open spec fn compass_name(point: int) -> Seq<char> {
    if point == 0 {
        "北 (N)"@
    } else if point == 1 {
        "北北東 (NNE)"@
    } else if point == 2 {
        "北東 (NE)"@
    } else if point == 3 {
        "東北東 (ENE)"@
    } else if point == 4 {
        "東 (E)"@
    } else if point == 5 {
        "東南東 (ESE)"@
    } else if point == 6 {
        "南東 (SE)"@
    } else if point == 7 {
        "南南東 (SSE)"@
    } else if point == 8 {
        "南 (S)"@
    } else if point == 9 {
        "南南西 (SSW)"@
    } else if point == 10 {
        "南西 (SW)"@
    } else if point == 11 {
        "西南西 (WSW)"@
    } else if point == 12 {
        "西 (W)"@
    } else if point == 13 {
        "西北西 (WNW)"@
    } else if point == 14 {
        "北西 (NW)"@
    } else {
        "北北西 (NNW)"@
    }
}

/// The compass direction of an azimuth.
pub fn azimuth_to_direction(az_deg: Binary64) -> (r: &'static str)
    ensures
        r@ == compass_name(compass_point(az_deg)),
{
    let point: u64 = if az_deg.size >= INFINITY {
        15
    } else {
        sixteenth_of(az_deg.one_turn())
    };
    if point == 0 {
        "北 (N)"
    } else if point == 1 {
        "北北東 (NNE)"
    } else if point == 2 {
        "北東 (NE)"
    } else if point == 3 {
        "東北東 (ENE)"
    } else if point == 4 {
        "東 (E)"
    } else if point == 5 {
        "東南東 (ESE)"
    } else if point == 6 {
        "南東 (SE)"
    } else if point == 7 {
        "南南東 (SSE)"
    } else if point == 8 {
        "南 (S)"
    } else if point == 9 {
        "南南西 (SSW)"
    } else if point == 10 {
        "南西 (SW)"
    } else if point == 11 {
        "西南西 (WSW)"
    } else if point == 12 {
        "西 (W)"
    } else if point == 13 {
        "西北西 (WNW)"
    } else if point == 14 {
        "北西 (NW)"
    } else {
        "北北西 (NNW)"
    }
}

impl SatellitePass {
    /// The pass culminates in the eastern half of the sky, from north over east to south, which
    /// the antenna sees.
    pub open spec fn east_view(self) -> bool {
        0 <= self.peak_azimuth_deg.order() <= of_integer(180).order()
    }

    /// Whether the pass culminates in the eastern half of the sky, which the antenna sees.
    pub fn is_east_view_favorable(&self) -> (r: bool)
        ensures
            r == self.east_view(),
    {
        0 <= self.peak_azimuth_deg.order() && self.peak_azimuth_deg.order() <= Binary64::integer(
            180,
        ).order()
    }

    /// How the antenna sees the pass.
    pub fn view_geometry_desc(&self) -> (r: &'static str)
        ensures
            r@ == if self.east_view() {
                "東側パス (見通し良好)"@
            } else {
                "西側パス (建物遮蔽)"@
            },
    {
        if self.is_east_view_favorable() {
            "東側パス (見通し良好)"
        } else {
            "西側パス (建物遮蔽)"
        }
    }
}

/// The compass has sixteen points, clockwise from north: an azimuth of whole degrees is named by
/// the point that is nearest to it, north at 0, east at 90, south at 180 and west at 270, each
/// 22.5 degrees from the next.
pub proof fn law_compass_goes_clockwise_from_north(degrees: nat)
    requires
        degrees < 0x20_0000_0000_0000,
    ensures
        ({
            let a = degrees % 360;
            let name = compass_name(compass_point(of_integer(degrees)));
            &&& 4 * a < 45 || 4 * a >= 1395 ==> name == "北 (N)"@
            &&& 45 <= 4 * a < 135 ==> name == "北北東 (NNE)"@
            &&& 135 <= 4 * a < 225 ==> name == "北東 (NE)"@
            &&& 225 <= 4 * a < 315 ==> name == "東北東 (ENE)"@
            &&& 315 <= 4 * a < 405 ==> name == "東 (E)"@
            &&& 405 <= 4 * a < 495 ==> name == "東南東 (ESE)"@
            &&& 495 <= 4 * a < 585 ==> name == "南東 (SE)"@
            &&& 585 <= 4 * a < 675 ==> name == "南南東 (SSE)"@
            &&& 675 <= 4 * a < 765 ==> name == "南 (S)"@
            &&& 765 <= 4 * a < 855 ==> name == "南南西 (SSW)"@
            &&& 855 <= 4 * a < 945 ==> name == "南西 (SW)"@
            &&& 945 <= 4 * a < 1035 ==> name == "西南西 (WSW)"@
            &&& 1035 <= 4 * a < 1125 ==> name == "西 (W)"@
            &&& 1125 <= 4 * a < 1215 ==> name == "西北西 (WNW)"@
            &&& 1215 <= 4 * a < 1305 ==> name == "北西 (NW)"@
            &&& 1305 <= 4 * a < 1395 ==> name == "北北西 (NNW)"@
        }),
{
    law_whole_degrees_in_sixteenths(degrees);
    law_small_integers_are_exact(degrees);
}

/// The antenna sees the eastern half of the sky: a pass that culminates at a whole number of
/// degrees is in view from north over east to south, and not beyond.
pub proof fn law_antenna_sees_the_east(pass: SatellitePass, degrees: nat)
    requires
        degrees < 0x20_0000_0000_0000,
        pass.peak_azimuth_deg == of_integer(degrees),
    ensures
        pass.east_view() <==> degrees <= 180,
{
    law_small_integers_are_exact(degrees);
    if degrees < 180 {
        law_small_integers_are_in_order(degrees, 180);
    } else if degrees > 180 {
        law_small_integers_are_in_order(180, degrees);
    }
}

/// What is decoded from samples is recorded as samples, and what is heard or decoded from sound is
/// recorded as sound.
pub proof fn law_digital_signals_are_recorded_raw(signal: SignalType)
    ensures
        signal == SignalType::Lrpt || signal == SignalType::CubeSatSsdv || signal
            == SignalType::CubeSatTelemetry || signal == SignalType::MorseCw <==> signal.raw_iq(),
        signal == SignalType::Apt || signal == SignalType::IssSstv || signal
            == SignalType::CubeSatSstv || signal == SignalType::AprsPacket || signal
            == SignalType::FmRepeater <==> !signal.raw_iq(),
{
}

/// A signal is named in the settings by what it is: each known word stands for its signal, and any
/// other for telemetry.
pub proof fn law_signals_are_named(name: Seq<char>)
    ensures
        signal_named("camerasstv"@) == SignalType::CubeSatSstv,
        signal_named("sstv"@) == SignalType::CubeSatSstv,
        signal_named("cubesatsstv"@) == SignalType::CubeSatSstv,
        signal_named("isssstv"@) == SignalType::IssSstv,
        signal_named("iss"@) == SignalType::IssSstv,
        signal_named("ssdvcamera"@) == SignalType::CubeSatSsdv,
        signal_named("camerassdv"@) == SignalType::CubeSatSsdv,
        signal_named("ssdv"@) == SignalType::CubeSatSsdv,
        signal_named("morsecw"@) == SignalType::MorseCw,
        signal_named("morse"@) == SignalType::MorseCw,
        signal_named("cw"@) == SignalType::MorseCw,
        signal_named("aprs"@) == SignalType::AprsPacket,
        signal_named("issaprs"@) == SignalType::AprsPacket,
        signal_named("packet"@) == SignalType::AprsPacket,
        signal_named("fmrepeater"@) == SignalType::FmRepeater,
        signal_named("fmvoice"@) == SignalType::FmRepeater,
        signal_named("repeater"@) == SignalType::FmRepeater,
        signal_named("lrpt"@) == SignalType::Lrpt,
        signal_named("apt"@) == SignalType::Apt,
        signal_named(name) != SignalType::CubeSatTelemetry ==> name == "camerasstv"@
            || name == "sstv"@
            || name == "cubesatsstv"@
            || name == "isssstv"@
            || name == "iss"@
            || name == "ssdvcamera"@
            || name == "camerassdv"@
            || name == "ssdv"@
            || name == "morsecw"@
            || name == "morse"@
            || name == "cw"@
            || name == "aprs"@
            || name == "issaprs"@
            || name == "packet"@
            || name == "fmrepeater"@
            || name == "fmvoice"@
            || name == "repeater"@
            || name == "lrpt"@
            || name == "apt"@,
{
    lemma_signal_names();
}

/// Some letters and the length of a word as a number.
spec fn word_number(s: Seq<char>) -> int {
    letter_at(s, 0) + 1_000 * letter_at(s, 2) + 1_000_000 * letter_at(s, 3) + 1_000_000_000
        * letter_at(s, 8) + 10_000_000_000_000 * s.len()
}

/// The number of the letter at a place, or zero behind the end.
spec fn letter_at(s: Seq<char>, i: int) -> int {
    if i < s.len() {
        s[i] as int
    } else {
        0
    }
}

/// The words for signals as numbers: no two are the same.
proof fn lemma_signal_names()
    ensures
        word_number("camerasstv"@) == 100116101109099,
        word_number("sstv"@) == 40000118116115,
        word_number("cubesatsstv"@) == 110115101098099,
        word_number("isssstv"@) == 70000115115105,
        word_number("iss"@) == 30000000115105,
        word_number("ssdvcamera"@) == 100114118100115,
        word_number("camerassdv"@) == 100100101109099,
        word_number("ssdv"@) == 40000118100115,
        word_number("morsecw"@) == 70000115114109,
        word_number("morse"@) == 50000115114109,
        word_number("cw"@) == 20000000000099,
        word_number("aprs"@) == 40000115114097,
        word_number("issaprs"@) == 70000097115105,
        word_number("packet"@) == 60000107099112,
        word_number("fmrepeater"@) == 100101101114102,
        word_number("fmvoice"@) == 70000111118102,
        word_number("repeater"@) == 80000101112114,
        word_number("lrpt"@) == 40000116112108,
        word_number("apt"@) == 30000000116097,
{
    reveal_strlit("camerasstv");
    reveal_strlit("sstv");
    reveal_strlit("cubesatsstv");
    reveal_strlit("isssstv");
    reveal_strlit("iss");
    reveal_strlit("ssdvcamera");
    reveal_strlit("camerassdv");
    reveal_strlit("ssdv");
    reveal_strlit("morsecw");
    reveal_strlit("morse");
    reveal_strlit("cw");
    reveal_strlit("aprs");
    reveal_strlit("issaprs");
    reveal_strlit("packet");
    reveal_strlit("fmrepeater");
    reveal_strlit("fmvoice");
    reveal_strlit("repeater");
    reveal_strlit("lrpt");
    reveal_strlit("apt");
}

/// A signal is shown under a name that says what it is.
pub proof fn law_signals_are_shown_by_name()
    ensures
        has_text(SignalType::Apt.display(), "APT"@),
        has_text(SignalType::Lrpt.display(), "LRPT"@),
        has_text(SignalType::CubeSatSsdv.display(), "CubeSat SSDV"@),
        has_text(SignalType::CubeSatSstv.display(), "CubeSat SSTV"@),
        has_text(SignalType::CubeSatTelemetry.display(), "Telemetry"@),
        has_text(SignalType::MorseCw.display(), "Morse"@),
        has_text(SignalType::IssSstv.display(), "ISS SSTV"@),
        has_text(SignalType::AprsPacket.display(), "APRS"@),
        has_text(SignalType::FmRepeater.display(), "FM"@),
{
    reveal_strlit("NOAA APT (アナログ)");
    reveal_strlit("APT");
    reveal_strlit("Meteor LRPT (デジタルQPSK)");
    reveal_strlit("LRPT");
    reveal_strlit("CubeSat SSDV (カメラ画像)");
    reveal_strlit("CubeSat SSDV");
    reveal_strlit("CubeSat SSTV (カメラ画像)");
    reveal_strlit("CubeSat SSTV");
    reveal_strlit("CubeSat Telemetry (テレメトリ)");
    reveal_strlit("Telemetry");
    reveal_strlit("CubeSat Morse (モールスCW)");
    reveal_strlit("Morse");
    reveal_strlit("ISS SSTV (宇宙ステーション画像)");
    reveal_strlit("ISS SSTV");
    reveal_strlit("ISS APRS (1200bps パケット)");
    reveal_strlit("APRS");
    reveal_strlit("FM Repeater (音声中継器)");
    reveal_strlit("FM");
    assert(SignalType::Apt.display().subrange(5, 8) =~= "APT"@);
    assert(occurs_at(SignalType::Apt.display(), "APT"@, 5));
    assert(SignalType::Lrpt.display().subrange(7, 11) =~= "LRPT"@);
    assert(occurs_at(SignalType::Lrpt.display(), "LRPT"@, 7));
    assert(SignalType::CubeSatSsdv.display().subrange(0, 12) =~= "CubeSat SSDV"@);
    assert(occurs_at(SignalType::CubeSatSsdv.display(), "CubeSat SSDV"@, 0));
    assert(SignalType::CubeSatSstv.display().subrange(0, 12) =~= "CubeSat SSTV"@);
    assert(occurs_at(SignalType::CubeSatSstv.display(), "CubeSat SSTV"@, 0));
    assert(SignalType::CubeSatTelemetry.display().subrange(8, 17) =~= "Telemetry"@);
    assert(occurs_at(SignalType::CubeSatTelemetry.display(), "Telemetry"@, 8));
    assert(SignalType::MorseCw.display().subrange(8, 13) =~= "Morse"@);
    assert(occurs_at(SignalType::MorseCw.display(), "Morse"@, 8));
    assert(SignalType::IssSstv.display().subrange(0, 8) =~= "ISS SSTV"@);
    assert(occurs_at(SignalType::IssSstv.display(), "ISS SSTV"@, 0));
    assert(SignalType::AprsPacket.display().subrange(4, 8) =~= "APRS"@);
    assert(occurs_at(SignalType::AprsPacket.display(), "APRS"@, 4));
    assert(SignalType::FmRepeater.display().subrange(0, 2) =~= "FM"@);
    assert(occurs_at(SignalType::FmRepeater.display(), "FM"@, 0));
}

} // verus!
