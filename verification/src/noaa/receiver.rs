//! Recording with rtl_fm.

use crate::text::{decimal, digits, is_digit, law_digits_read_back, push_text, sets, texts};
use vstd::prelude::*;

verus! {

/// The arguments of rtl_fm: wide FM at 60k samples a second, written as a WAV file of 11025.
pub open spec fn rtl_fm_args(freq_hz: nat, output: Seq<char>) -> Seq<Seq<char>> {
    seq![
        "-M"@,
        "wfm"@,
        "-f"@,
        digits(freq_hz),
        "-s"@,
        "60k"@,
        "-r"@,
        "11025"@,
        "-E"@,
        "wav"@,
        "-F"@,
        "9"@,
        output,
    ]
}

/// The arguments of rtl_fm.
pub fn build_rtl_fm_args(freq_hz: u64, output_wav_path: &str) -> (r: Vec<String>)
    ensures
        texts(r@) == rtl_fm_args(freq_hz as nat, output_wav_path@),
{
    let mut r: Vec<String> = Vec::new();
    push_text(&mut r, "-M");
    push_text(&mut r, "wfm");
    push_text(&mut r, "-f");
    push_text(&mut r, decimal(freq_hz).as_str());
    push_text(&mut r, "-s");
    push_text(&mut r, "60k");
    push_text(&mut r, "-r");
    push_text(&mut r, "11025");
    push_text(&mut r, "-E");
    push_text(&mut r, "wav");
    push_text(&mut r, "-F");
    push_text(&mut r, "9");
    push_text(&mut r, output_wav_path);
    assert(texts(r@) =~= rtl_fm_args(freq_hz as nat, output_wav_path@));
    r
}

/// rtl_fm records what is asked for: wide FM on the frequency behind `-f`, sampled 60 thousand
/// times a second, written 11025 times a second to the WAV file, which comes last.
pub proof fn law_rtl_fm_records_with_its_settings(freq_hz: nat, output: Seq<char>)
    ensures
        ({
            let args = rtl_fm_args(freq_hz, output);
            &&& sets(args, "-f"@, digits(freq_hz))
            &&& sets(args, "-M"@, "wfm"@)
            &&& sets(args, "-s"@, "60k"@)
            &&& sets(args, "-r"@, "11025"@)
            &&& sets(args, "-E"@, "wav"@)
            &&& sets(args, "-F"@, "9"@)
            &&& args.last() == output
            &&& args.len() == 13
        }),
{
    let args = rtl_fm_args(freq_hz, output);
    law_digits_read_back(freq_hz);
    assert(is_digit(digits(freq_hz)[0]));
    reveal_strlit("-M");
    reveal_strlit("wfm");
    reveal_strlit("-f");
    reveal_strlit("-s");
    reveal_strlit("60k");
    reveal_strlit("-r");
    reveal_strlit("11025");
    reveal_strlit("-E");
    reveal_strlit("wav");
    reveal_strlit("-F");
    reveal_strlit("9");
    assert("-M"@[1] == 'M' && "-f"@[1] == 'f' && "-s"@[1] == 's' && "-r"@[1] == 'r' && "-E"@[1]
        == 'E' && "-F"@[1] == 'F');
    assert("-f"@[0] == '-' && "-M"@[0] == '-' && "-s"@[0] == '-' && "-r"@[0] == '-' && "-E"@[0]
        == '-' && "-F"@[0] == '-');
    assert(args[0] == "-M"@ && args[1] == "wfm"@ && args[2] == "-f"@ && args[3] == digits(freq_hz));
    assert(args[4] == "-s"@ && args[5] == "60k"@ && args[6] == "-r"@ && args[7] == "11025"@);
    assert(args[8] == "-E"@ && args[9] == "wav"@ && args[10] == "-F"@ && args[11] == "9"@);
}

} // verus!
