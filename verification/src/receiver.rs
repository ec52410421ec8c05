//! Recording: the commands that the receiver runs with, and what it writes.

use crate::binary64::{fixed_text, lemma_fixed_text_is_long};
use crate::config::SdrConfig;
use crate::cw::wav_header;
use crate::text::{
    decimal, digits, digits_value, is_digit, law_digits_read_back, push_text, sets, signed_decimal,
    signed_digits, texts,
};
use vstd::prelude::*;

verus! {

/// How far the receiver's clock is off, where it is.
pub open spec fn ppm_args(ppm: int) -> Seq<Seq<char>> {
    if ppm == 0 {
        Seq::empty()
    } else {
        seq!["-p"@, signed_digits(ppm)]
    }
}

/// The arguments of rtl_fm: FM audio at 11025 samples a second, written to standard output.
pub open spec fn rtl_fm_args(freq_hz: nat, sdr: SdrConfig) -> Seq<Seq<char>> {
    seq![
        "-f"@,
        digits(freq_hz),
        "-M"@,
        "fm"@,
        "-s"@,
        digits(sdr.sample_rate as nat),
        "-r"@,
        "11025"@,
        "-g"@,
        fixed_text(sdr.gain, 1),
        "-E"@,
        "deemp"@,
    ] + ppm_args(sdr.ppm_error as int) + seq!["-"@]
}

/// The arguments of rtl_sdr: raw samples, written to a file.
pub open spec fn rtl_sdr_args(freq_hz: nat, sdr: SdrConfig, output: Seq<char>) -> Seq<Seq<char>> {
    seq![
        "-f"@,
        digits(freq_hz),
        "-s"@,
        digits(sdr.sample_rate as nat),
        "-g"@,
        fixed_text(sdr.gain, 1),
    ] + ppm_args(sdr.ppm_error as int) + seq![output]
}

/// The arguments of rtl_fm.
pub fn build_rtl_fm_args(freq_hz: u64, sdr: &SdrConfig) -> (r: Vec<String>)
    ensures
        texts(r@) == rtl_fm_args(freq_hz as nat, *sdr),
{
    let mut r: Vec<String> = Vec::new();
    push_text(&mut r, "-f");
    push_text(&mut r, decimal(freq_hz).as_str());
    push_text(&mut r, "-M");
    push_text(&mut r, "fm");
    push_text(&mut r, "-s");
    push_text(&mut r, decimal(sdr.sample_rate as u64).as_str());
    push_text(&mut r, "-r");
    push_text(&mut r, "11025");
    push_text(&mut r, "-g");
    push_text(&mut r, sdr.gain.fixed(1).as_str());
    push_text(&mut r, "-E");
    push_text(&mut r, "deemp");
    if sdr.ppm_error != 0 {
        push_text(&mut r, "-p");
        push_text(&mut r, signed_decimal(sdr.ppm_error as i64).as_str());
    }
    push_text(&mut r, "-");
    assert(texts(r@) =~= rtl_fm_args(freq_hz as nat, *sdr));
    r
}

/// The arguments of rtl_sdr.
pub fn build_rtl_sdr_args(freq_hz: u64, sdr: &SdrConfig, output_path: &str) -> (r: Vec<String>)
    ensures
        texts(r@) == rtl_sdr_args(freq_hz as nat, *sdr, output_path@),
{
    let mut r: Vec<String> = Vec::new();
    push_text(&mut r, "-f");
    push_text(&mut r, decimal(freq_hz).as_str());
    push_text(&mut r, "-s");
    push_text(&mut r, decimal(sdr.sample_rate as u64).as_str());
    push_text(&mut r, "-g");
    push_text(&mut r, sdr.gain.fixed(1).as_str());
    if sdr.ppm_error != 0 {
        push_text(&mut r, "-p");
        push_text(&mut r, signed_decimal(sdr.ppm_error as i64).as_str());
    }
    push_text(&mut r, output_path);
    assert(texts(r@) =~= rtl_sdr_args(freq_hz as nat, *sdr, output_path@));
    r
}

/// The header of a WAV file of demodulated audio: one channel of 16-bit samples, 11025 a second.
pub fn create_wav_header(data_size: u32) -> (r: [u8; 44])
    requires
        36 + data_size <= u32::MAX,
    ensures
        r@ == wav_header(11025, 1, 16, data_size as int),
{
    crate::cw::create_wav_header(11025, 1, 16, data_size)
}

/// The text of a setting is no option: it is a number.
proof fn lemma_settings_are_no_options(freq_hz: nat, sdr: SdrConfig, option: Seq<char>)
    requires
        option.len() == 2,
        option[0] == '-',
        !is_digit(option[1]),
    ensures
        digits(freq_hz) != option,
        fixed_text(sdr.gain, 1) != option,
        signed_digits(sdr.ppm_error as int) != option,
{
    law_digits_read_back(freq_hz);
    assert(is_digit(digits(freq_hz)[0]));
    lemma_fixed_text_is_long(sdr.gain);
    let ppm = sdr.ppm_error as int;
    if ppm < 0 {
        law_digits_read_back((-ppm) as nat);
        assert(signed_digits(ppm)[1] == digits((-ppm) as nat)[0]);
    } else {
        law_digits_read_back(ppm as nat);
        assert(is_digit(digits(ppm as nat)[0]));
    }
}

/// The options of the receiver differ, and none is a number.
proof fn lemma_options()
    ensures
        "-f"@.len() == 2 && "-f"@[0] == '-' && "-f"@[1] == 'f',
        "-s"@.len() == 2 && "-s"@[0] == '-' && "-s"@[1] == 's',
        "-g"@.len() == 2 && "-g"@[0] == '-' && "-g"@[1] == 'g',
        "-p"@.len() == 2 && "-p"@[0] == '-' && "-p"@[1] == 'p',
        "-M"@.len() == 2 && "-M"@[0] == '-' && "-M"@[1] == 'M',
        "-r"@.len() == 2 && "-r"@[0] == '-' && "-r"@[1] == 'r',
        "-E"@.len() == 2 && "-E"@[0] == '-' && "-E"@[1] == 'E',
        "fm"@.len() == 2 && "fm"@[0] == 'f',
        "deemp"@.len() == 5,
        "11025"@.len() == 5,
        "-"@.len() == 1,
{
    reveal_strlit("-f");
    reveal_strlit("-s");
    reveal_strlit("-g");
    reveal_strlit("-p");
    reveal_strlit("-M");
    reveal_strlit("-r");
    reveal_strlit("-E");
    reveal_strlit("fm");
    reveal_strlit("deemp");
    reveal_strlit("11025");
    reveal_strlit("-");
}

/// rtl_sdr records what is asked for: behind each option stands the setting that it is for, the
/// frequency in Hz behind `-f`, the sample rate behind `-s`, the gain behind `-g` and the error of
/// the clock behind `-p`, which is left out where there is none. The file comes last.
pub proof fn law_rtl_sdr_records_with_its_settings(
    freq_hz: nat,
    sdr: SdrConfig,
    output: Seq<char>,
)
    ensures
        ({
            let args = rtl_sdr_args(freq_hz, sdr, output);
            &&& sets(args, "-f"@, digits(freq_hz))
            &&& sets(args, "-s"@, digits(sdr.sample_rate as nat))
            &&& sets(args, "-g"@, fixed_text(sdr.gain, 1))
            &&& sdr.ppm_error != 0 ==> sets(args, "-p"@, signed_digits(sdr.ppm_error as int))
            &&& sdr.ppm_error == 0 ==> !args.drop_last().contains("-p"@)
            &&& args.last() == output
            &&& args.len() == if sdr.ppm_error == 0 { 7int } else { 9 }
        }),
{
    let args = rtl_sdr_args(freq_hz, sdr, output);
    lemma_options();
    lemma_settings_are_no_options(freq_hz, sdr, "-f"@);
    lemma_settings_are_no_options(freq_hz, sdr, "-s"@);
    lemma_settings_are_no_options(freq_hz, sdr, "-g"@);
    lemma_settings_are_no_options(freq_hz, sdr, "-p"@);
    lemma_settings_are_no_options(sdr.sample_rate as nat, sdr, "-f"@);
    lemma_settings_are_no_options(sdr.sample_rate as nat, sdr, "-s"@);
    lemma_settings_are_no_options(sdr.sample_rate as nat, sdr, "-g"@);
    lemma_settings_are_no_options(sdr.sample_rate as nat, sdr, "-p"@);
    assert(args[0] == "-f"@ && args[1] == digits(freq_hz));
    assert(args[2] == "-s"@ && args[3] == digits(sdr.sample_rate as nat));
    assert(args[4] == "-g"@ && args[5] == fixed_text(sdr.gain, 1));
    if sdr.ppm_error != 0 {
        assert(args[6] == "-p"@ && args[7] == signed_digits(sdr.ppm_error as int));
        assert(args[8] == output);
    } else {
        assert(args[6] == output);
    }
}

/// Different frequencies and different sample rates are recorded with different arguments: what
/// is behind the option reads back as the setting.
pub proof fn law_rtl_sdr_settings_read_back(
    freq_hz: nat,
    sdr: SdrConfig,
    output: Seq<char>,
    i: int,
)
    requires
        0 <= i < rtl_sdr_args(freq_hz, sdr, output).len() - 1,
    ensures
        ({
            let args = rtl_sdr_args(freq_hz, sdr, output);
            &&& args[i] == "-f"@ ==> digits_value(args[i + 1]) == freq_hz
            &&& args[i] == "-s"@ ==> digits_value(args[i + 1]) == sdr.sample_rate
        }),
{
    law_rtl_sdr_records_with_its_settings(freq_hz, sdr, output);
    law_digits_read_back(freq_hz);
    law_digits_read_back(sdr.sample_rate as nat);
}

/// rtl_fm records what is asked for: behind each option stands the setting that it is for. The
/// audio is FM with de-emphasis, 11025 samples a second, written to standard output.
pub proof fn law_rtl_fm_records_with_its_settings(freq_hz: nat, sdr: SdrConfig)
    ensures
        ({
            let args = rtl_fm_args(freq_hz, sdr);
            &&& sets(args, "-f"@, digits(freq_hz))
            &&& sets(args, "-s"@, digits(sdr.sample_rate as nat))
            &&& sets(args, "-g"@, fixed_text(sdr.gain, 1))
            &&& sets(args, "-M"@, "fm"@)
            &&& sets(args, "-r"@, "11025"@)
            &&& sets(args, "-E"@, "deemp"@)
            &&& sdr.ppm_error != 0 ==> sets(args, "-p"@, signed_digits(sdr.ppm_error as int))
            &&& sdr.ppm_error == 0 ==> !args.contains("-p"@)
            &&& args.last() == "-"@
            &&& args.len() == if sdr.ppm_error == 0 { 13int } else { 15 }
        }),
{
    let args = rtl_fm_args(freq_hz, sdr);
    lemma_options();
    let rate = sdr.sample_rate as nat;
    lemma_settings_are_no_options(freq_hz, sdr, "-f"@);
    lemma_settings_are_no_options(freq_hz, sdr, "-s"@);
    lemma_settings_are_no_options(freq_hz, sdr, "-g"@);
    lemma_settings_are_no_options(freq_hz, sdr, "-p"@);
    lemma_settings_are_no_options(freq_hz, sdr, "-M"@);
    lemma_settings_are_no_options(freq_hz, sdr, "-r"@);
    lemma_settings_are_no_options(freq_hz, sdr, "-E"@);
    lemma_settings_are_no_options(rate, sdr, "-f"@);
    lemma_settings_are_no_options(rate, sdr, "-s"@);
    lemma_settings_are_no_options(rate, sdr, "-g"@);
    lemma_settings_are_no_options(rate, sdr, "-p"@);
    lemma_settings_are_no_options(rate, sdr, "-M"@);
    lemma_settings_are_no_options(rate, sdr, "-r"@);
    lemma_settings_are_no_options(rate, sdr, "-E"@);
    assert(args[0] == "-f"@ && args[1] == digits(freq_hz));
    assert(args[2] == "-M"@ && args[3] == "fm"@);
    assert(args[4] == "-s"@ && args[5] == digits(rate));
    assert(args[6] == "-r"@ && args[7] == "11025"@);
    assert(args[8] == "-g"@ && args[9] == fixed_text(sdr.gain, 1));
    assert(args[10] == "-E"@ && args[11] == "deemp"@);
    if sdr.ppm_error != 0 {
        assert(args[12] == "-p"@ && args[13] == signed_digits(sdr.ppm_error as int));
        assert(args[14] == "-"@);
    } else {
        assert(args[12] == "-"@);
    }
}

} // verus!
