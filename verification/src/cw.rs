//! Audio files, and Morse code in the loudness of a recording.

use crate::text::{same, trim_end_matches, without_trailing};
use vstd::prelude::*;

verus! {

/// The four bytes of `n`, the lowest first.
pub open spec fn le4(n: int) -> Seq<u8> {
    seq![
        (n % 256) as u8,
        (n / 256 % 256) as u8,
        (n / 65_536 % 256) as u8,
        (n / 16_777_216 % 256) as u8,
    ]
}

/// The two bytes of `n`, the lowest first.
pub open spec fn le2(n: int) -> Seq<u8> {
    seq![(n % 256) as u8, (n / 256 % 256) as u8]
}

/// The header of a WAV file with `data_size` bytes of samples.
pub open spec fn wav_header(rate: int, channels: int, bits: int, data_size: int) -> Seq<u8> {
    // "RIFF", "WAVE", "fmt " and "data" name the parts.
    seq![0x52u8, 0x49u8, 0x46u8, 0x46u8] + le4(36 + data_size) + seq![0x57u8, 0x41u8, 0x56u8, 0x45u8]
        + seq![0x66u8, 0x6du8, 0x74u8, 0x20u8] + le4(16) + le2(1) + le2(channels) + le4(rate) + le4(
        rate * channels * bits / 8,
    ) + le2(channels * bits / 8) + le2(bits) + seq![0x64u8, 0x61u8, 0x74u8, 0x61u8] + le4(data_size)
}

/// The header of a WAV file.
pub fn create_wav_header(sample_rate: u32, channels: u16, bits_per_sample: u16, data_size: u32) -> (r:
    [u8; 44])
    requires
        sample_rate * channels <= u32::MAX,
        sample_rate * channels * bits_per_sample <= u32::MAX,
        channels * bits_per_sample <= u16::MAX,
        36 + data_size <= u32::MAX,
    ensures
        r@ == wav_header(
            sample_rate as int,
            channels as int,
            bits_per_sample as int,
            data_size as int,
        ),
{
    let byte_rate: u32 = sample_rate * channels as u32 * bits_per_sample as u32 / 8;
    let block_align: u16 = channels * bits_per_sample / 8;
    let total: u32 = 36 + data_size;
    let r: [u8; 44] = [
        0x52,
        0x49,
        0x46,
        0x46,
        (total % 256) as u8,
        (total / 256 % 256) as u8,
        (total / 65_536 % 256) as u8,
        (total / 16_777_216 % 256) as u8,
        0x57,
        0x41,
        0x56,
        0x45,
        0x66,
        0x6d,
        0x74,
        0x20,
        16,
        0,
        0,
        0,
        1,
        0,
        (channels % 256) as u8,
        (channels / 256 % 256) as u8,
        (sample_rate % 256) as u8,
        (sample_rate / 256 % 256) as u8,
        (sample_rate / 65_536 % 256) as u8,
        (sample_rate / 16_777_216 % 256) as u8,
        (byte_rate % 256) as u8,
        (byte_rate / 256 % 256) as u8,
        (byte_rate / 65_536 % 256) as u8,
        (byte_rate / 16_777_216 % 256) as u8,
        (block_align % 256) as u8,
        (block_align / 256 % 256) as u8,
        (bits_per_sample % 256) as u8,
        (bits_per_sample / 256 % 256) as u8,
        0x64,
        0x61,
        0x74,
        0x61,
        (data_size % 256) as u8,
        (data_size / 256 % 256) as u8,
        (data_size / 65_536 % 256) as u8,
        (data_size / 16_777_216 % 256) as u8,
    ];
    assert(r@ =~= wav_header(
        sample_rate as int,
        channels as int,
        bits_per_sample as int,
        data_size as int,
    ));
    r
}

/// The two bytes of a sample as an unsigned number: a negative one counts from 65536 down.
pub open spec fn sample_word(s: i16) -> int {
    if s < 0 {
        s + 65_536
    } else {
        s as int
    }
}

/// The samples as bytes, the lower byte of each first.
pub open spec fn sample_bytes(pcm: Seq<i16>) -> Seq<u8>
    decreases pcm.len(),
{
    if pcm.len() == 0 {
        Seq::empty()
    } else {
        sample_bytes(pcm.drop_last()) + le2(sample_word(pcm.last()))
    }
}

/// A WAV file with one channel of 16-bit samples.
pub open spec fn wav_file(pcm: Seq<i16>, rate: int) -> Seq<u8> {
    wav_header(rate, 1, 16, 2 * pcm.len() as int) + sample_bytes(pcm)
}

/// A WAV file with one channel of 16-bit samples.
pub fn create_cw_wav(pcm: &[i16], out_rate: u32) -> (r: Vec<u8>)
    requires
        36 + 2 * pcm@.len() <= u32::MAX,
        out_rate * 16 <= u32::MAX,
    ensures
        r@ == wav_file(pcm@, out_rate as int),
{
    let n: usize = pcm.len();
    let header: [u8; 44] = create_wav_header(out_rate, 1, 16, (n * 2) as u32);
    let mut r: Vec<u8> = Vec::new();
    let mut i: usize = 0;
    while i < 44
        invariant
            i <= 44,
            header@.len() == 44,
            r@ == header@.take(i as int),
        decreases 44 - i,
    {
        r.push(header[i]);
        assert(r@ =~= header@.take(i + 1));
        i = i + 1;
    }
    assert(header@.take(44) =~= header@);
    let mut k: usize = 0;
    assert(pcm@.take(0) =~= Seq::<i16>::empty());
    assert(header@ + sample_bytes(pcm@.take(0)) =~= header@);
    while k < n
        invariant
            n == pcm@.len(),
            k <= n,
            r@ == header@ + sample_bytes(pcm@.take(k as int)),
        decreases n - k,
    {
        let s: i16 = pcm[k];
        let word: u16 = if s < 0 {
            (s as i32 + 65_536) as u16
        } else {
            s as u16
        };
        r.push((word % 256) as u8);
        r.push((word / 256) as u8);
        assert(pcm@.take(k + 1).drop_last() =~= pcm@.take(k as int));
        assert(pcm@.take(k + 1).last() == s);
        assert(r@ =~= header@ + sample_bytes(pcm@.take(k + 1)));
        k = k + 1;
    }
    assert(pcm@.take(n as int) =~= pcm@);
    r
}

/// How many bytes the samples take.
proof fn lemma_sample_bytes_len(pcm: Seq<i16>)
    ensures
        sample_bytes(pcm).len() == 2 * pcm.len(),
    decreases pcm.len(),
{
    if pcm.len() > 0 {
        lemma_sample_bytes_len(pcm.drop_last());
    }
}

/// Where the bytes of a sample stand.
proof fn lemma_sample_at(pcm: Seq<i16>, k: int)
    requires
        0 <= k < pcm.len(),
    ensures
        sample_bytes(pcm).len() == 2 * pcm.len(),
        sample_bytes(pcm)[2 * k] == (sample_word(pcm[k]) % 256) as u8,
        sample_bytes(pcm)[2 * k + 1] == (sample_word(pcm[k]) / 256 % 256) as u8,
    decreases pcm.len(),
{
    lemma_sample_bytes_len(pcm);
    lemma_sample_bytes_len(pcm.drop_last());
    if k < pcm.len() - 1 {
        lemma_sample_at(pcm.drop_last(), k);
    }
}

/// A WAV file is as long as its header says: 44 bytes and the bytes of the samples.
pub proof fn law_wav_length(pcm: Seq<i16>, rate: int)
    ensures
        wav_file(pcm, rate).len() == 44 + 2 * pcm.len(),
        wav_file(pcm, rate).subrange(40, 44) == le4(2 * pcm.len() as int),
{
    lemma_sample_bytes_len(pcm);
    assert(wav_file(pcm, rate).subrange(40, 44) =~= le4(2 * pcm.len() as int));
}

/// Every sample can be read back from a WAV file.
pub proof fn law_wav_samples_read_back(pcm: Seq<i16>, rate: int, k: int)
    requires
        0 <= k < pcm.len(),
    ensures
        wav_file(pcm, rate)[44 + 2 * k] + 256 * wav_file(pcm, rate)[45 + 2 * k] == sample_word(
            pcm[k],
        ),
{
    lemma_sample_at(pcm, k);
}

/// The letter or digit that a pattern of dots and dashes stands for.
pub open spec fn letter_of(pattern: Seq<char>) -> Seq<char> {
    if pattern == ".-"@ {
        "A"@
    } else if pattern == "-..."@ {
        "B"@
    } else if pattern == "-.-."@ {
        "C"@
    } else if pattern == "-.."@ {
        "D"@
    } else if pattern == "."@ {
        "E"@
    } else if pattern == "..-."@ {
        "F"@
    } else if pattern == "--."@ {
        "G"@
    } else if pattern == "...."@ {
        "H"@
    } else if pattern == ".."@ {
        "I"@
    } else if pattern == ".---"@ {
        "J"@
    } else if pattern == "-.-"@ {
        "K"@
    } else if pattern == ".-.."@ {
        "L"@
    } else if pattern == "--"@ {
        "M"@
    } else if pattern == "-."@ {
        "N"@
    } else if pattern == "---"@ {
        "O"@
    } else if pattern == ".--."@ {
        "P"@
    } else if pattern == "--.-"@ {
        "Q"@
    } else if pattern == ".-."@ {
        "R"@
    } else if pattern == "..."@ {
        "S"@
    } else if pattern == "-"@ {
        "T"@
    } else if pattern == "..-"@ {
        "U"@
    } else if pattern == "...-"@ {
        "V"@
    } else if pattern == ".--"@ {
        "W"@
    } else if pattern == "-..-"@ {
        "X"@
    } else if pattern == "-.--"@ {
        "Y"@
    } else if pattern == "--.."@ {
        "Z"@
    } else if pattern == "-----"@ {
        "0"@
    } else if pattern == ".----"@ {
        "1"@
    } else if pattern == "..---"@ {
        "2"@
    } else if pattern == "...--"@ {
        "3"@
    } else if pattern == "....-"@ {
        "4"@
    } else if pattern == "....."@ {
        "5"@
    } else if pattern == "-...."@ {
        "6"@
    } else if pattern == "--..."@ {
        "7"@
    } else if pattern == "---.."@ {
        "8"@
    } else if pattern == "----."@ {
        "9"@
    } else {
        "?"@
    }
}

/// The letter or digit that a pattern of dots and dashes stands for.
pub fn letter(pattern: &str) -> (r: &'static str)
    ensures
        r@ == letter_of(pattern@),
{
    if same(pattern, ".-") {
        "A"
    } else if same(pattern, "-...") {
        "B"
    } else if same(pattern, "-.-.") {
        "C"
    } else if same(pattern, "-..") {
        "D"
    } else if same(pattern, ".") {
        "E"
    } else if same(pattern, "..-.") {
        "F"
    } else if same(pattern, "--.") {
        "G"
    } else if same(pattern, "....") {
        "H"
    } else if same(pattern, "..") {
        "I"
    } else if same(pattern, ".---") {
        "J"
    } else if same(pattern, "-.-") {
        "K"
    } else if same(pattern, ".-..") {
        "L"
    } else if same(pattern, "--") {
        "M"
    } else if same(pattern, "-.") {
        "N"
    } else if same(pattern, "---") {
        "O"
    } else if same(pattern, ".--.") {
        "P"
    } else if same(pattern, "--.-") {
        "Q"
    } else if same(pattern, ".-.") {
        "R"
    } else if same(pattern, "...") {
        "S"
    } else if same(pattern, "-") {
        "T"
    } else if same(pattern, "..-") {
        "U"
    } else if same(pattern, "...-") {
        "V"
    } else if same(pattern, ".--") {
        "W"
    } else if same(pattern, "-..-") {
        "X"
    } else if same(pattern, "-.--") {
        "Y"
    } else if same(pattern, "--..") {
        "Z"
    } else if same(pattern, "-----") {
        "0"
    } else if same(pattern, ".----") {
        "1"
    } else if same(pattern, "..---") {
        "2"
    } else if same(pattern, "...--") {
        "3"
    } else if same(pattern, "....-") {
        "4"
    } else if same(pattern, ".....") {
        "5"
    } else if same(pattern, "-....") {
        "6"
    } else if same(pattern, "--...") {
        "7"
    } else if same(pattern, "---..") {
        "8"
    } else if same(pattern, "----.") {
        "9"
    } else {
        "?"
    }
}

/// The lengths of the stretches of equal values, in order.
pub open spec fn run_lengths(keyed: Seq<bool>) -> Seq<(bool, nat)>
    decreases keyed.len(),
{
    if keyed.len() == 0 {
        Seq::empty()
    } else {
        let r = run_lengths(keyed.drop_last());
        if r.len() > 0 && r.last().0 == keyed.last() {
            r.update(r.len() - 1, (keyed.last(), (r.last().1 + 1) as nat))
        } else {
            r.push((keyed.last(), 1))
        }
    }
}

/// `n` is the length of the shortest stretch with the key down.
pub open spec fn is_shortest_mark(runs: Seq<(bool, nat)>, n: nat) -> bool {
    &&& exists|i: int| 0 <= i < runs.len() && (#[trigger] runs[i]).0 && runs[i].1 == n
    &&& forall|i: int| 0 <= i < runs.len() && (#[trigger] runs[i]).0 ==> n <= runs[i].1
}

/// What has been read: the dots and dashes of the letter that is being sent, and the text before
/// it.
pub struct MorseState {
    pub pattern: Seq<char>,
    pub text: Seq<char>,
}

/// The letter that was being sent is complete.
pub open spec fn with_letter(s: MorseState) -> MorseState {
    if s.pattern.len() == 0 {
        s
    } else {
        MorseState { pattern: Seq::empty(), text: s.text + letter_of(s.pattern) }
    }
}

/// The word that was being sent is complete.
pub open spec fn with_space(s: MorseState) -> MorseState {
    if s.text.len() == 0 || s.text.last() == ' ' {
        s
    } else {
        MorseState { pattern: s.pattern, text: s.text + " "@ }
    }
}

/// What has been read after one more stretch. With the key down, two dots or more make a dash;
/// with the key up, two dots or more end a letter and five or more a word.
pub open spec fn read_run(s: MorseState, run: (bool, nat), dot: nat) -> MorseState {
    if run.0 {
        MorseState {
            pattern: s.pattern + if run.1 >= 2 * dot {
                "-"@
            } else {
                "."@
            },
            text: s.text,
        }
    } else if run.1 < 2 * dot {
        s
    } else if run.1 < 5 * dot {
        with_letter(s)
    } else {
        with_space(with_letter(s))
    }
}

/// What has been read after all stretches.
pub open spec fn read_runs(runs: Seq<(bool, nat)>, dot: nat) -> MorseState
    decreases runs.len(),
{
    if runs.len() == 0 {
        MorseState { pattern: Seq::empty(), text: Seq::empty() }
    } else {
        read_run(read_runs(runs.drop_last(), dot), runs.last(), dot)
    }
}

/// The text in a sequence of stretches, without the spaces at its end.
pub open spec fn morse_text(runs: Seq<(bool, nat)>, dot: nat) -> Seq<char> {
    without_trailing(with_letter(read_runs(runs, dot)).text, ' ')
}

/// The greatest loudness.
pub open spec fn loudest(envelopes: Seq<u32>) -> u32
    decreases envelopes.len(),
{
    if envelopes.len() == 0 {
        0
    } else if envelopes.last() > loudest(envelopes.drop_last()) {
        envelopes.last()
    } else {
        loudest(envelopes.drop_last())
    }
}

/// Where the key is down: the loudness is more than half of the greatest.
pub open spec fn key_down(envelopes: Seq<u32>) -> Seq<bool> {
    envelopes.map_values(|e: u32| 2 * e > loudest(envelopes))
}

/// The stretches in a recording.
pub open spec fn morse_runs(envelopes: Seq<u32>) -> Seq<(bool, nat)> {
    run_lengths(key_down(envelopes))
}

/// What an executable list of stretches holds.
pub open spec fn runs_view(v: Seq<(bool, usize)>) -> Seq<(bool, nat)> {
    Seq::new(v.len(), |i: int| (v[i].0, v[i].1 as nat))
}

/// The greatest loudness.
fn peak(envelopes: &[u32]) -> (r: u32)
    ensures
        r == loudest(envelopes@),
        forall|i: int| 0 <= i < envelopes@.len() ==> (#[trigger] envelopes@[i]) <= r,
{
    let mut r: u32 = 0;
    let mut i: usize = 0;
    assert(envelopes@.take(0) =~= Seq::<u32>::empty());
    while i < envelopes.len()
        invariant
            i <= envelopes@.len(),
            r == loudest(envelopes@.take(i as int)),
            forall|j: int| 0 <= j < i ==> (#[trigger] envelopes@[j]) <= r,
        decreases envelopes@.len() - i,
    {
        assert(envelopes@.take(i + 1).drop_last() =~= envelopes@.take(i as int));
        assert(envelopes@.take(i + 1).last() == envelopes@[i as int]);
        if envelopes[i] > r {
            r = envelopes[i];
        }
        i = i + 1;
    }
    assert(envelopes@.take(i as int) =~= envelopes@);
    r
}

/// The stretches in a recording.
fn runs_of(envelopes: &[u32]) -> (r: Vec<(bool, usize)>)
    ensures
        runs_view(r@) == morse_runs(envelopes@),
{
    let top: u32 = peak(envelopes);
    let ghost keyed = key_down(envelopes@);
    let mut r: Vec<(bool, usize)> = Vec::new();
    let mut i: usize = 0;
    assert(keyed.take(0) =~= Seq::<bool>::empty());
    assert(runs_view(r@) =~= Seq::empty());
    while i < envelopes.len()
        invariant
            top == loudest(envelopes@),
            keyed == key_down(envelopes@),
            i <= envelopes@.len(),
            runs_view(r@) == run_lengths(keyed.take(i as int)),
            forall|k: int| 0 <= k < r@.len() ==> (#[trigger] r@[k]).1 <= i,
        decreases envelopes@.len() - i,
    {
        let down: bool = 2 * envelopes[i] as u64 > top as u64;
        let ghost before = run_lengths(keyed.take(i as int));
        assert(keyed.take(i + 1).drop_last() =~= keyed.take(i as int));
        assert(keyed.take(i + 1).last() == down);
        let n: usize = r.len();
        assert(before.len() == n);
        if n > 0 && r[n - 1].0 == down {
            assert(before.last() == (r@[n - 1].0, r@[n - 1].1 as nat));
            let longer: usize = r[n - 1].1 + 1;
            r.set(n - 1, (down, longer));
            assert(runs_view(r@) =~= before.update(n - 1, (down, longer as nat)));
        } else {
            if n > 0 {
                assert(before.last() == (r@[n - 1].0, r@[n - 1].1 as nat));
            }
            r.push((down, 1));
            assert(runs_view(r@) =~= before.push((down, 1nat)));
        }
        i = i + 1;
    }
    assert(keyed.take(i as int) =~= keyed);
    r
}

/// The length of the shortest stretch with the key down.
fn shortest_mark(runs: &Vec<(bool, usize)>) -> (r: Option<usize>)
    ensures
        match r {
            Some(n) => is_shortest_mark(runs_view(runs@), n as nat),
            None => forall|i: int| 0 <= i < runs@.len() ==> !(#[trigger] runs@[i]).0,
        },
{
    let mut best: Option<usize> = None;
    let mut at: usize = 0;
    let mut i: usize = 0;
    while i < runs.len()
        invariant
            i <= runs@.len(),
            match best {
                Some(n) => at < i && runs@[at as int] == (true, n) && forall|j: int|
                    0 <= j < i && (#[trigger] runs@[j]).0 ==> n <= runs@[j].1,
                None => forall|j: int| 0 <= j < i ==> !(#[trigger] runs@[j]).0,
            },
        decreases runs@.len() - i,
    {
        if runs[i].0 {
            let shorter: bool = match best {
                Some(n) => runs[i].1 < n,
                None => true,
            };
            if shorter {
                best = Some(runs[i].1);
                at = i;
            }
        }
        i = i + 1;
    }
    if let Some(n) = best {
        assert(runs_view(runs@)[at as int] == (true, n as nat));
        assert forall|j: int| 0 <= j < runs_view(runs@).len() && (#[trigger] runs_view(
            runs@,
        )[j]).0 implies n <= runs_view(runs@)[j].1 by {
            assert(runs@[j].0);
        }
    }
    best
}

/// The text in a sequence of stretches.
fn read_text(runs: &Vec<(bool, usize)>, dot: usize) -> (r: String)
    ensures
        r@ == morse_text(runs_view(runs@), dot as nat),
{
    let ghost all = runs_view(runs@);
    let mut pattern: String = String::new();
    let mut text: String = String::new();
    let mut i: usize = 0;
    assert(all.take(0) =~= Seq::empty());
    while i < runs.len()
        invariant
            all == runs_view(runs@),
            i <= runs@.len(),
            read_runs(all.take(i as int), dot as nat) == (MorseState {
                pattern: pattern@,
                text: text@,
            }),
        decreases runs@.len() - i,
    {
        let (down, len): (bool, usize) = runs[i];
        assert(all.take(i + 1).drop_last() =~= all.take(i as int));
        assert(all.take(i + 1).last() == (down, len as nat));
        if down {
            if len as u128 >= 2 * dot as u128 {
                pattern.append("-");
            } else {
                pattern.append(".");
            }
        } else if len as u128 >= 2 * dot as u128 {
            if !pattern.as_str().is_empty() {
                text.append(letter(pattern.as_str()));
                pattern = String::new();
            }
            if len as u128 >= 5 * dot as u128 {
                let n: usize = text.as_str().unicode_len();
                if n > 0 && text.as_str().get_char(n - 1) != ' ' {
                    text.append(" ");
                }
            }
        }
        i = i + 1;
    }
    assert(all.take(i as int) =~= all);
    if !pattern.as_str().is_empty() {
        text.append(letter(pattern.as_str()));
    }
    trim_end_matches(text.as_str(), ' ').to_owned()
}

/// A recording holds Morse code: the key was down, and nowhere for less than a hundredth of a
/// second, which only noise is.
pub open spec fn is_keying(envelopes: Seq<u32>, sample_rate: u32, dot: nat) -> bool {
    is_shortest_mark(morse_runs(envelopes), dot) && 100 * dot >= sample_rate
}

/// The text in the loudness of a recording of Morse code, where there is one. The shortest
/// stretch with the key down is taken for a dot.
pub fn decode_morse_from_envelope_samples(envelopes: &[u32], sample_rate: u32) -> (r: Option<
    String,
>)
    ensures
        match r {
            Some(text) => text@.len() > 0 && exists|dot: nat| #[trigger]
                is_keying(envelopes@, sample_rate, dot) && text@ == morse_text(
                    morse_runs(envelopes@),
                    dot,
                ),
            None => forall|dot: nat| #[trigger]
                is_keying(envelopes@, sample_rate, dot) ==> morse_text(
                    morse_runs(envelopes@),
                    dot,
                ).len() == 0,
        },
{
    let runs: Vec<(bool, usize)> = runs_of(envelopes);
    match shortest_mark(&runs) {
        Some(dot) => {
            assert forall|d: nat| #[trigger] is_keying(envelopes@, sample_rate, d) implies d
                == dot by {
                let a = choose|i: int|
                    0 <= i < runs_view(runs@).len() && (#[trigger] runs_view(runs@)[i]).0
                        && runs_view(runs@)[i].1 == d;
                let b = choose|i: int|
                    0 <= i < runs_view(runs@).len() && (#[trigger] runs_view(runs@)[i]).0
                        && runs_view(runs@)[i].1 == dot;
                assert(runs_view(runs@)[a].1 >= dot);
                assert(runs_view(runs@)[b].1 >= d);
            }
            if 100 * dot as u128 >= sample_rate as u128 {
                let text: String = read_text(&runs, dot);
                if text.as_str().is_empty() {
                    None
                } else {
                    assert(is_keying(envelopes@, sample_rate, dot as nat));
                    Some(text)
                }
            } else {
                None
            }
        },
        None => {
            assert forall|d: nat| !(#[trigger] is_keying(envelopes@, sample_rate, d)) by {
                if is_keying(envelopes@, sample_rate, d) {
                    let a = choose|i: int|
                        0 <= i < runs_view(runs@).len() && (#[trigger] runs_view(runs@)[i]).0
                            && runs_view(runs@)[i].1 == d;
                    assert(!runs@[a].0);
                }
            }
            None
        },
    }
}

/// A letter as it is keyed: a pattern of dots and dashes, and whether a word ends behind it.
pub struct KeyedLetter {
    pub pattern: Seq<char>,
    pub ends_word: bool,
}

/// The pattern holds dots and dashes, and at least one.
pub open spec fn is_pattern(p: Seq<char>) -> bool {
    p.len() > 0 && forall|i: int| 0 <= i < p.len() ==> (#[trigger] p[i]) == '.' || p[i] == '-'
}

/// The stretches of the first `n` dots and dashes of a letter: one dot or three, with one dot
/// between them.
pub open spec fn keyed_marks(p: Seq<char>, n: nat, dot: nat) -> Seq<(bool, nat)>
    decreases n,
{
    if n == 0 {
        Seq::empty()
    } else {
        let before = keyed_marks(p, (n - 1) as nat, dot);
        let spaced = if n == 1 {
            before
        } else {
            before.push((false, dot))
        };
        spaced.push((true, if p[n - 1] == '-' { 3 * dot } else { dot }))
    }
}

/// The stretches of a letter: behind it three dots, or seven at the end of a word.
pub open spec fn keyed_letter(l: KeyedLetter, dot: nat) -> Seq<(bool, nat)> {
    keyed_marks(l.pattern, l.pattern.len(), dot).push(
        (false, if l.ends_word { 7 * dot } else { 3 * dot }),
    )
}

/// The stretches of a text.
pub open spec fn keyed_text(letters: Seq<KeyedLetter>, dot: nat) -> Seq<(bool, nat)>
    decreases letters.len(),
{
    if letters.len() == 0 {
        Seq::empty()
    } else {
        keyed_text(letters.drop_last(), dot) + keyed_letter(letters.last(), dot)
    }
}

/// The text that is keyed.
pub open spec fn plain_text(letters: Seq<KeyedLetter>) -> Seq<char>
    decreases letters.len(),
{
    if letters.len() == 0 {
        Seq::empty()
    } else {
        plain_text(letters.drop_last()) + letter_of(letters.last().pattern)
            + if letters.last().ends_word {
            " "@
        } else {
            Seq::empty()
        }
    }
}

/// A letter is one character, and no space.
proof fn lemma_letter(p: Seq<char>)
    ensures
        letter_of(p).len() == 1,
        letter_of(p)[0] != ' ',
{
    reveal_strlit("A");
    reveal_strlit("B");
    reveal_strlit("C");
    reveal_strlit("D");
    reveal_strlit("E");
    reveal_strlit("F");
    reveal_strlit("G");
    reveal_strlit("H");
    reveal_strlit("I");
    reveal_strlit("J");
    reveal_strlit("K");
    reveal_strlit("L");
    reveal_strlit("M");
    reveal_strlit("N");
    reveal_strlit("O");
    reveal_strlit("P");
    reveal_strlit("Q");
    reveal_strlit("R");
    reveal_strlit("S");
    reveal_strlit("T");
    reveal_strlit("U");
    reveal_strlit("V");
    reveal_strlit("W");
    reveal_strlit("X");
    reveal_strlit("Y");
    reveal_strlit("Z");
    reveal_strlit("0");
    reveal_strlit("1");
    reveal_strlit("2");
    reveal_strlit("3");
    reveal_strlit("4");
    reveal_strlit("5");
    reveal_strlit("6");
    reveal_strlit("7");
    reveal_strlit("8");
    reveal_strlit("9");
    reveal_strlit("?");
}

/// Reading the dots and dashes of a letter.
proof fn lemma_read_marks(runs: Seq<(bool, nat)>, p: Seq<char>, n: nat, dot: nat)
    requires
        is_pattern(p),
        n <= p.len(),
        dot > 0,
        read_runs(runs, dot).pattern.len() == 0,
    ensures
        read_runs(runs + keyed_marks(p, n, dot), dot) == (MorseState {
            pattern: p.take(n as int),
            text: read_runs(runs, dot).text,
        }),
    decreases n,
{
    reveal_strlit("-");
    reveal_strlit(".");
    if n == 0 {
        assert(runs + keyed_marks(p, 0, dot) =~= runs);
        assert(p.take(0) =~= read_runs(runs, dot).pattern);
    } else {
        let m = (n - 1) as nat;
        let before = keyed_marks(p, m, dot);
        lemma_read_marks(runs, p, m, dot);
        let spaced = if n == 1 {
            before
        } else {
            before.push((false, dot))
        };
        if n > 1 {
            assert((runs + spaced).drop_last() =~= runs + before);
            assert((runs + spaced).last() == (false, dot));
        }
        let mark = (true, if p[m as int] == '-' { 3 * dot } else { dot });
        assert(read_runs(runs + spaced, dot) == read_runs(runs + before, dot));
        assert((runs + keyed_marks(p, n, dot)).drop_last() =~= runs + spaced);
        assert((runs + keyed_marks(p, n, dot)).last() == mark);
        assert(p[m as int] == '.' || p[m as int] == '-');
        assert(p.take(n as int) =~= p.take(m as int) + seq![p[m as int]]);
        assert("-"@ =~= seq!['-']);
        assert("."@ =~= seq!['.']);
    }
}

/// Text that is keyed with the usual lengths is read back: every letter of every word, with one
/// space between words.
pub proof fn law_morse_reads_keyed_text(letters: Seq<KeyedLetter>, dot: nat)
    requires
        dot > 0,
        forall|i: int| 0 <= i < letters.len() ==> is_pattern((#[trigger] letters[i]).pattern),
    ensures
        read_runs(keyed_text(letters, dot), dot) == (MorseState {
            pattern: Seq::empty(),
            text: plain_text(letters),
        }),
        morse_text(keyed_text(letters, dot), dot) == without_trailing(plain_text(letters), ' '),
    decreases letters.len(),
{
    if letters.len() > 0 {
        let front = letters.drop_last();
        let l = letters.last();
        assert(letters[letters.len() - 1] == l);
        assert forall|i: int| 0 <= i < front.len() implies is_pattern(
            (#[trigger] front[i]).pattern,
        ) by {
            assert(letters[i] == front[i]);
        }
        law_morse_reads_keyed_text(front, dot);
        let runs = keyed_text(front, dot);
        let marks = keyed_marks(l.pattern, l.pattern.len(), dot);
        lemma_read_marks(runs, l.pattern, l.pattern.len(), dot);
        assert(l.pattern.take(l.pattern.len() as int) =~= l.pattern);
        lemma_letter(l.pattern);
        let all = keyed_text(letters, dot);
        assert(all.drop_last() =~= runs + marks);
        let written = plain_text(front) + letter_of(l.pattern);
        assert(written.last() != ' ');
        assert(written + Seq::<char>::empty() =~= written);
    }
}

/// A letter or digit that International Morse code has a pattern for.
pub open spec fn is_morse_char(c: char) -> bool {
    ('A' <= c && c <= 'Z') || ('0' <= c && c <= '9')
}

/// The pattern of a letter or digit in International Morse code.
pub open spec fn code_of(c: char) -> Seq<char> {
    match c {
        'A' => ".-"@,
        'B' => "-..."@,
        'C' => "-.-."@,
        'D' => "-.."@,
        'E' => "."@,
        'F' => "..-."@,
        'G' => "--."@,
        'H' => "...."@,
        'I' => ".."@,
        'J' => ".---"@,
        'K' => "-.-"@,
        'L' => ".-.."@,
        'M' => "--"@,
        'N' => "-."@,
        'O' => "---"@,
        'P' => ".--."@,
        'Q' => "--.-"@,
        'R' => ".-."@,
        'S' => "..."@,
        'T' => "-"@,
        'U' => "..-"@,
        'V' => "...-"@,
        'W' => ".--"@,
        'X' => "-..-"@,
        'Y' => "-.--"@,
        'Z' => "--.."@,
        '0' => "-----"@,
        '1' => ".----"@,
        '2' => "..---"@,
        '3' => "...--"@,
        '4' => "....-"@,
        '5' => "....."@,
        '6' => "-...."@,
        '7' => "--..."@,
        '8' => "---.."@,
        '9' => "----."@,
        _ => Seq::empty(),
    }
}

/// The texts of single letters and digits.
proof fn lemma_letter_texts()
    ensures
        "A"@ == seq!['A'],
        "B"@ == seq!['B'],
        "C"@ == seq!['C'],
        "D"@ == seq!['D'],
        "E"@ == seq!['E'],
        "F"@ == seq!['F'],
        "G"@ == seq!['G'],
        "H"@ == seq!['H'],
        "I"@ == seq!['I'],
        "J"@ == seq!['J'],
        "K"@ == seq!['K'],
        "L"@ == seq!['L'],
        "M"@ == seq!['M'],
        "N"@ == seq!['N'],
        "O"@ == seq!['O'],
        "P"@ == seq!['P'],
        "Q"@ == seq!['Q'],
        "R"@ == seq!['R'],
        "S"@ == seq!['S'],
        "T"@ == seq!['T'],
        "U"@ == seq!['U'],
        "V"@ == seq!['V'],
        "W"@ == seq!['W'],
        "X"@ == seq!['X'],
        "Y"@ == seq!['Y'],
        "Z"@ == seq!['Z'],
        "0"@ == seq!['0'],
        "1"@ == seq!['1'],
        "2"@ == seq!['2'],
        "3"@ == seq!['3'],
        "4"@ == seq!['4'],
        "5"@ == seq!['5'],
        "6"@ == seq!['6'],
        "7"@ == seq!['7'],
        "8"@ == seq!['8'],
        "9"@ == seq!['9'],
{
    reveal_strlit("A");
    reveal_strlit("B");
    reveal_strlit("C");
    reveal_strlit("D");
    reveal_strlit("E");
    reveal_strlit("F");
    reveal_strlit("G");
    reveal_strlit("H");
    reveal_strlit("I");
    reveal_strlit("J");
    reveal_strlit("K");
    reveal_strlit("L");
    reveal_strlit("M");
    reveal_strlit("N");
    reveal_strlit("O");
    reveal_strlit("P");
    reveal_strlit("Q");
    reveal_strlit("R");
    reveal_strlit("S");
    reveal_strlit("T");
    reveal_strlit("U");
    reveal_strlit("V");
    reveal_strlit("W");
    reveal_strlit("X");
    reveal_strlit("Y");
    reveal_strlit("Z");
    reveal_strlit("0");
    reveal_strlit("1");
    reveal_strlit("2");
    reveal_strlit("3");
    reveal_strlit("4");
    reveal_strlit("5");
    reveal_strlit("6");
    reveal_strlit("7");
    reveal_strlit("8");
    reveal_strlit("9");
    assert("A"@ =~= seq!['A']);
    assert("B"@ =~= seq!['B']);
    assert("C"@ =~= seq!['C']);
    assert("D"@ =~= seq!['D']);
    assert("E"@ =~= seq!['E']);
    assert("F"@ =~= seq!['F']);
    assert("G"@ =~= seq!['G']);
    assert("H"@ =~= seq!['H']);
    assert("I"@ =~= seq!['I']);
    assert("J"@ =~= seq!['J']);
    assert("K"@ =~= seq!['K']);
    assert("L"@ =~= seq!['L']);
    assert("M"@ =~= seq!['M']);
    assert("N"@ =~= seq!['N']);
    assert("O"@ =~= seq!['O']);
    assert("P"@ =~= seq!['P']);
    assert("Q"@ =~= seq!['Q']);
    assert("R"@ =~= seq!['R']);
    assert("S"@ =~= seq!['S']);
    assert("T"@ =~= seq!['T']);
    assert("U"@ =~= seq!['U']);
    assert("V"@ =~= seq!['V']);
    assert("W"@ =~= seq!['W']);
    assert("X"@ =~= seq!['X']);
    assert("Y"@ =~= seq!['Y']);
    assert("Z"@ =~= seq!['Z']);
    assert("0"@ =~= seq!['0']);
    assert("1"@ =~= seq!['1']);
    assert("2"@ =~= seq!['2']);
    assert("3"@ =~= seq!['3']);
    assert("4"@ =~= seq!['4']);
    assert("5"@ =~= seq!['5']);
    assert("6"@ =~= seq!['6']);
    assert("7"@ =~= seq!['7']);
    assert("8"@ =~= seq!['8']);
    assert("9"@ =~= seq!['9']);
}

/// The marks of a pattern as a number: its length, and which of its marks are dashes.
spec fn marks_number(p: Seq<char>) -> int {
    p.len() * 100_000 + dash_at(p, 0) + 10 * dash_at(p, 1) + 100 * dash_at(p, 2) + 1000 * dash_at(
        p,
        3,
    ) + 10_000 * dash_at(p, 4)
}

/// Whether mark `i` is a dash, as a number.
spec fn dash_at(p: Seq<char>, i: int) -> int {
    if i < p.len() && p[i] == '-' {
        1
    } else {
        0
    }
}

/// The patterns of the code as numbers: no two are the same.
proof fn lemma_patterns()
    ensures
        marks_number(".-"@) == 200010 && is_pattern(".-"@) && ".-"@.len() == 2,
        marks_number("-..."@) == 400001 && is_pattern("-..."@) && "-..."@.len() == 4,
        marks_number("-.-."@) == 400101 && is_pattern("-.-."@) && "-.-."@.len() == 4,
        marks_number("-.."@) == 300001 && is_pattern("-.."@) && "-.."@.len() == 3,
        marks_number("."@) == 100000 && is_pattern("."@) && "."@.len() == 1,
        marks_number("..-."@) == 400100 && is_pattern("..-."@) && "..-."@.len() == 4,
        marks_number("--."@) == 300011 && is_pattern("--."@) && "--."@.len() == 3,
        marks_number("...."@) == 400000 && is_pattern("...."@) && "...."@.len() == 4,
        marks_number(".."@) == 200000 && is_pattern(".."@) && ".."@.len() == 2,
        marks_number(".---"@) == 401110 && is_pattern(".---"@) && ".---"@.len() == 4,
        marks_number("-.-"@) == 300101 && is_pattern("-.-"@) && "-.-"@.len() == 3,
        marks_number(".-.."@) == 400010 && is_pattern(".-.."@) && ".-.."@.len() == 4,
        marks_number("--"@) == 200011 && is_pattern("--"@) && "--"@.len() == 2,
        marks_number("-."@) == 200001 && is_pattern("-."@) && "-."@.len() == 2,
        marks_number("---"@) == 300111 && is_pattern("---"@) && "---"@.len() == 3,
        marks_number(".--."@) == 400110 && is_pattern(".--."@) && ".--."@.len() == 4,
        marks_number("--.-"@) == 401011 && is_pattern("--.-"@) && "--.-"@.len() == 4,
        marks_number(".-."@) == 300010 && is_pattern(".-."@) && ".-."@.len() == 3,
        marks_number("..."@) == 300000 && is_pattern("..."@) && "..."@.len() == 3,
        marks_number("-"@) == 100001 && is_pattern("-"@) && "-"@.len() == 1,
        marks_number("..-"@) == 300100 && is_pattern("..-"@) && "..-"@.len() == 3,
        marks_number("...-"@) == 401000 && is_pattern("...-"@) && "...-"@.len() == 4,
        marks_number(".--"@) == 300110 && is_pattern(".--"@) && ".--"@.len() == 3,
        marks_number("-..-"@) == 401001 && is_pattern("-..-"@) && "-..-"@.len() == 4,
        marks_number("-.--"@) == 401101 && is_pattern("-.--"@) && "-.--"@.len() == 4,
        marks_number("--.."@) == 400011 && is_pattern("--.."@) && "--.."@.len() == 4,
        marks_number("-----"@) == 511111 && is_pattern("-----"@) && "-----"@.len() == 5,
        marks_number(".----"@) == 511110 && is_pattern(".----"@) && ".----"@.len() == 5,
        marks_number("..---"@) == 511100 && is_pattern("..---"@) && "..---"@.len() == 5,
        marks_number("...--"@) == 511000 && is_pattern("...--"@) && "...--"@.len() == 5,
        marks_number("....-"@) == 510000 && is_pattern("....-"@) && "....-"@.len() == 5,
        marks_number("....."@) == 500000 && is_pattern("....."@) && "....."@.len() == 5,
        marks_number("-...."@) == 500001 && is_pattern("-...."@) && "-...."@.len() == 5,
        marks_number("--..."@) == 500011 && is_pattern("--..."@) && "--..."@.len() == 5,
        marks_number("---.."@) == 500111 && is_pattern("---.."@) && "---.."@.len() == 5,
        marks_number("----."@) == 501111 && is_pattern("----."@) && "----."@.len() == 5,
{
    reveal_strlit(".-");
    reveal_strlit("-...");
    reveal_strlit("-.-.");
    reveal_strlit("-..");
    reveal_strlit(".");
    reveal_strlit("..-.");
    reveal_strlit("--.");
    reveal_strlit("....");
    reveal_strlit("..");
    reveal_strlit(".---");
    reveal_strlit("-.-");
    reveal_strlit(".-..");
    reveal_strlit("--");
    reveal_strlit("-.");
    reveal_strlit("---");
    reveal_strlit(".--.");
    reveal_strlit("--.-");
    reveal_strlit(".-.");
    reveal_strlit("...");
    reveal_strlit("-");
    reveal_strlit("..-");
    reveal_strlit("...-");
    reveal_strlit(".--");
    reveal_strlit("-..-");
    reveal_strlit("-.--");
    reveal_strlit("--..");
    reveal_strlit("-----");
    reveal_strlit(".----");
    reveal_strlit("..---");
    reveal_strlit("...--");
    reveal_strlit("....-");
    reveal_strlit(".....");
    reveal_strlit("-....");
    reveal_strlit("--...");
    reveal_strlit("---..");
    reveal_strlit("----.");
}

/// The table is International Morse code: every letter and digit is what its pattern is read as.
pub proof fn law_letters_are_read_by_their_code(c: char)
    requires
        is_morse_char(c),
    ensures
        letter_of(code_of(c)) == seq![c],
        is_pattern(code_of(c)),
        code_of(c).len() <= 5,
{
    lemma_patterns();
    lemma_letter_texts();
}

/// A pattern that stands for no letter or digit is read as a question mark, and only such a one.
pub proof fn law_other_patterns_are_unknown(pattern: Seq<char>)
    ensures
        letter_of(pattern).len() == 1,
        letter_of(pattern) == seq!['?'] || (is_morse_char(letter_of(pattern)[0]) && pattern
            == code_of(letter_of(pattern)[0])),
{
    lemma_letter_texts();
    reveal_strlit("?");
    assert("?"@ =~= seq!['?']);
}

/// A text of words with one space between them, of letters and digits of Morse code.
pub open spec fn is_message(text: Seq<char>) -> bool {
    &&& text.len() > 0
    &&& text[0] != ' '
    &&& text.last() != ' '
    &&& forall|i: int| 0 <= i < text.len() ==> #[trigger] text[i] == ' ' || is_morse_char(text[i])
    &&& forall|i: int| 0 < i < text.len() && #[trigger] text[i] == ' ' ==> text[i - 1] != ' '
}

/// The letters of a message as they are keyed: each in its code, a word ending where a space is.
pub open spec fn keyed_message(text: Seq<char>) -> Seq<KeyedLetter>
    decreases text.len(),
{
    if text.len() == 0 {
        Seq::empty()
    } else {
        let before = keyed_message(text.drop_last());
        if text.last() == ' ' {
            before.update(
                before.len() - 1,
                KeyedLetter { pattern: before.last().pattern, ends_word: true },
            )
        } else {
            before.push(KeyedLetter { pattern: code_of(text.last()), ends_word: false })
        }
    }
}

/// What is keyed for a message is the message.
proof fn lemma_keyed_message(text: Seq<char>)
    requires
        text.len() > 0 ==> text[0] != ' ',
        forall|i: int| 0 <= i < text.len() ==> #[trigger] text[i] == ' ' || is_morse_char(text[i]),
        forall|i: int| 0 < i < text.len() && #[trigger] text[i] == ' ' ==> text[i - 1] != ' ',
    ensures
        plain_text(keyed_message(text)) == text,
        forall|i: int|
            0 <= i < keyed_message(text).len() ==> is_pattern(
                (#[trigger] keyed_message(text)[i]).pattern,
            ),
        text.len() > 0 ==> keyed_message(text).len() > 0 && (keyed_message(text).last().ends_word
            <==> text.last() == ' '),
    decreases text.len(),
{
    if text.len() > 0 {
        let front = text.drop_last();
        let c = text.last();
        assert forall|i: int| 0 <= i < front.len() implies #[trigger] front[i] == ' '
            || is_morse_char(front[i]) by {
            assert(front[i] == text[i]);
        }
        assert forall|i: int| 0 < i < front.len() && #[trigger] front[i] == ' ' implies front[i - 1]
            != ' ' by {
            assert(front[i] == text[i]);
        }
        lemma_keyed_message(front);
        let before = keyed_message(front);
        let all = keyed_message(text);
        assert(text[text.len() - 1] == c);
        assert(text =~= front.push(c));
        reveal_strlit(" ");
        assert(" "@ =~= seq![' ']);
        if c == ' ' {
            assert(front.last() == text[text.len() - 2]);
            assert(all.drop_last() =~= before.drop_last());
            assert(before[before.len() - 1] == before.last());
            let written = plain_text(before.drop_last()) + letter_of(before.last().pattern);
            assert(plain_text(before) =~= written);
            assert(plain_text(all) =~= written + " "@);
            assert(plain_text(all) =~= text);
            assert forall|i: int| 0 <= i < all.len() implies is_pattern(
                (#[trigger] all[i]).pattern,
            ) by {
                assert(all[i].pattern == before[i].pattern);
            }
        } else {
            law_letters_are_read_by_their_code(c);
            assert(all.drop_last() =~= before);
            assert(plain_text(all) =~= text);
        }
    }
}

/// A message in International Morse code is read back: whatever its words and however fast it is
/// keyed, the text is the very text that was sent.
pub proof fn law_morse_reads_back_the_message(text: Seq<char>, dot: nat)
    requires
        is_message(text),
        dot > 0,
    ensures
        morse_text(keyed_text(keyed_message(text), dot), dot) == text,
{
    lemma_keyed_message(text);
    law_morse_reads_keyed_text(keyed_message(text), dot);
}

/// The samples of a sequence of stretches: each value as often as its stretch is long.
pub open spec fn samples_of(runs: Seq<(bool, nat)>) -> Seq<bool>
    decreases runs.len(),
{
    if runs.len() == 0 {
        Seq::empty()
    } else {
        samples_of(runs.drop_last()) + Seq::new(runs.last().1, |i: int| runs.last().0)
    }
}

/// Stretches with the key down and up take turns, and each has a length.
pub open spec fn take_turns(runs: Seq<(bool, nat)>) -> bool {
    &&& forall|i: int| 0 <= i < runs.len() ==> (#[trigger] runs[i]).1 > 0
    &&& forall|i: int| 0 < i < runs.len() ==> (#[trigger] runs[i]).0 != runs[i - 1].0
}

/// One more stretch of equal samples.
proof fn lemma_run_added(keyed: Seq<bool>, v: bool, n: nat)
    requires
        n > 0,
        run_lengths(keyed).len() == 0 || run_lengths(keyed).last().0 != v,
    ensures
        run_lengths(keyed + Seq::new(n, |i: int| v)) == run_lengths(keyed).push((v, n)),
    decreases n,
{
    let all = keyed + Seq::new(n, |i: int| v);
    let m = (n - 1) as nat;
    assert(all.drop_last() =~= keyed + Seq::new(m, |i: int| v));
    assert(all.last() == v);
    if m == 0 {
        assert(keyed + Seq::new(m, |i: int| v) =~= keyed);
    } else {
        lemma_run_added(keyed, v, m);
        assert(run_lengths(all) =~= run_lengths(keyed).push((v, n)));
    }
}

/// The stretches of a recording are those that it was made of: stretches that take turns are found
/// again in their samples.
pub proof fn law_stretches_are_found_again(runs: Seq<(bool, nat)>)
    requires
        take_turns(runs),
    ensures
        run_lengths(samples_of(runs)) == runs,
    decreases runs.len(),
{
    if runs.len() > 0 {
        let front = runs.drop_last();
        let last = runs.last();
        assert(runs[runs.len() - 1] == last);
        assert forall|i: int| 0 <= i < front.len() implies (#[trigger] front[i]).1 > 0 by {
            assert(front[i] == runs[i]);
        }
        assert forall|i: int| 0 < i < front.len() implies (#[trigger] front[i]).0 != front[i
            - 1].0 by {
            assert(front[i] == runs[i]);
        }
        law_stretches_are_found_again(front);
        lemma_run_added(samples_of(front), last.0, last.1);
        assert(samples_of(runs) =~= samples_of(front) + Seq::new(last.1, |i: int| last.0));
        assert(run_lengths(samples_of(runs)) =~= runs);
    } else {
        assert(run_lengths(samples_of(runs)) =~= runs);
    }
}

/// The marks of a letter take turns with the gaps, and are one or three dots long.
proof fn lemma_marks_take_turns(p: Seq<char>, n: nat, dot: nat)
    requires
        dot > 0,
    ensures
        take_turns(keyed_marks(p, n, dot)),
        n > 0 ==> keyed_marks(p, n, dot).len() > 0 && keyed_marks(p, n, dot)[0].0 && keyed_marks(
            p,
            n,
            dot,
        ).last().0,
        forall|i: int|
            0 <= i < keyed_marks(p, n, dot).len() && (#[trigger] keyed_marks(p, n, dot)[i]).0
                ==> keyed_marks(p, n, dot)[i].1 >= dot,
        forall|k: int|
            0 <= k < n && #[trigger] p[k] != '-' ==> keyed_marks(p, n, dot).contains((true, dot)),
    decreases n,
{
    if n > 0 {
        let m = (n - 1) as nat;
        lemma_marks_take_turns(p, m, dot);
        let before = keyed_marks(p, m, dot);
        let all = keyed_marks(p, n, dot);
        let spaced = if n == 1 {
            before
        } else {
            before.push((false, dot))
        };
        assert(all[all.len() - 1].0);
        if n > 1 {
            assert(all[0] == before[0]);
        }
        assert forall|k: int| 0 <= k < n && #[trigger] p[k] != '-' implies all.contains(
            (true, dot),
        ) by {
            if k < m {
                assert(before.contains((true, dot)));
                let j = choose|j: int| 0 <= j < before.len() && before[j] == (true, dot);
                assert(all[j] == (true, dot));
            } else {
                assert(all[all.len() - 1] == (true, dot));
            }
        }
        assert forall|i: int| 0 < i < all.len() implies (#[trigger] all[i]).0 != all[i - 1].0 by {
            if i < before.len() {
                assert(before[i].0 != before[i - 1].0);
            }
        }
        assert forall|i: int| 0 <= i < all.len() implies (#[trigger] all[i]).1 > 0 by {
            if i < before.len() {
                assert(before[i].1 > 0);
            }
        }
        assert forall|i: int| 0 <= i < all.len() && (#[trigger] all[i]).0 implies all[i].1
            >= dot by {
            if i < before.len() {
                assert(before[i].0);
            }
        }
    }
}

/// The stretches of a text take turns, begin with a mark, end with a gap, and no mark is shorter
/// than a dot.
proof fn lemma_text_takes_turns(letters: Seq<KeyedLetter>, dot: nat)
    requires
        dot > 0,
        forall|i: int| 0 <= i < letters.len() ==> is_pattern((#[trigger] letters[i]).pattern),
    ensures
        take_turns(keyed_text(letters, dot)),
        letters.len() > 0 ==> keyed_text(letters, dot).len() > 0 && keyed_text(letters, dot)[0].0
            && !keyed_text(letters, dot).last().0,
        forall|i: int|
            0 <= i < keyed_text(letters, dot).len() && (#[trigger] keyed_text(letters, dot)[i]).0
                ==> keyed_text(letters, dot)[i].1 >= dot,
        forall|k: int, l: int|
            0 <= k < letters.len() && 0 <= l < letters[k].pattern.len()
                && #[trigger] letters[k].pattern[l] != '-' ==> keyed_text(letters, dot).contains(
                (true, dot),
            ),
    decreases letters.len(),
{
    if letters.len() > 0 {
        let front = letters.drop_last();
        let l = letters.last();
        assert(letters[letters.len() - 1] == l);
        assert forall|i: int| 0 <= i < front.len() implies is_pattern(
            (#[trigger] front[i]).pattern,
        ) by {
            assert(front[i] == letters[i]);
        }
        lemma_text_takes_turns(front, dot);
        lemma_marks_take_turns(l.pattern, l.pattern.len(), dot);
        let before = keyed_text(front, dot);
        let marks = keyed_marks(l.pattern, l.pattern.len(), dot);
        let own = keyed_letter(l, dot);
        let all = keyed_text(letters, dot);
        let b = before.len() as int;
        let m = marks.len() as int;
        assert(all.len() == b + m + 1);
        assert forall|i: int| 0 <= i < all.len() implies #[trigger] all[i] == if i < b {
            before[i]
        } else if i < b + m {
            marks[i - b]
        } else {
            own.last()
        } by {
        }
        assert(all[b + m].0 == false);
        assert forall|i: int| 0 < i < all.len() implies (#[trigger] all[i]).0 != all[i - 1].0 by {
            if i < b {
                assert(before[i].0 != before[i - 1].0);
            } else if i == b {
                assert(all[i - 1] == before[b - 1]);
                assert(all[i] == marks[0]);
            } else if i < b + m {
                assert(marks[i - b].0 != marks[i - b - 1].0);
                assert(all[i - 1] == marks[i - b - 1]);
            } else {
                assert(all[i - 1] == marks[m - 1]);
            }
        }
        assert forall|i: int| 0 <= i < all.len() implies (#[trigger] all[i]).1 > 0 by {
            if i < b {
                assert(before[i].1 > 0);
            } else if i < b + m {
                assert(marks[i - b].1 > 0);
            }
        }
        assert forall|i: int| 0 <= i < all.len() && (#[trigger] all[i]).0 implies all[i].1
            >= dot by {
            if i < b {
                assert(before[i].0);
            } else if i < b + m {
                assert(marks[i - b].0);
            }
        }
        assert forall|k: int, j: int|
            0 <= k < letters.len() && 0 <= j < letters[k].pattern.len()
                && #[trigger] letters[k].pattern[j] != '-' implies all.contains((true, dot)) by {
            if k < front.len() {
                assert(front[k].pattern[j] != '-');
                let i = choose|i: int| 0 <= i < before.len() && before[i] == (true, dot);
                assert(all[i] == (true, dot));
            } else {
                assert(l.pattern[j] != '-');
                let i = choose|i: int| 0 <= i < marks.len() && marks[i] == (true, dot);
                assert(all[b + i] == (true, dot));
            }
        }
        if front.len() > 0 {
            assert(all[0] == before[0]);
        } else {
            assert(all[0] == marks[0]);
        }
    }
}

/// The greatest loudness is one of the recording's, and none is greater.
pub proof fn law_loudest_is_the_greatest(envelopes: Seq<u32>)
    ensures
        forall|i: int| 0 <= i < envelopes.len() ==> #[trigger] envelopes[i] <= loudest(envelopes),
        envelopes.len() > 0 ==> envelopes.contains(loudest(envelopes)),
    decreases envelopes.len(),
{
    if envelopes.len() > 0 {
        let front = envelopes.drop_last();
        law_loudest_is_the_greatest(front);
        assert forall|i: int| 0 <= i < envelopes.len() implies #[trigger] envelopes[i] <= loudest(
            envelopes,
        ) by {
            if i < front.len() {
                assert(front[i] <= loudest(front));
            }
        }
        assert(envelopes[envelopes.len() - 1] == envelopes.last());
        if front.len() > 0 {
            let k = choose|k: int| 0 <= k < front.len() && front[k] == loudest(front);
            assert(envelopes[k] == loudest(front));
        }
    }
}

/// A recording of Morse code is decoded: where the loudness is more than half of its peak exactly
/// while the key is down, and the message has a dot that is not as short as noise, the text that
/// is read is the message that was sent.
pub proof fn law_recorded_morse_is_decoded(
    envelopes: Seq<u32>,
    peak: u32,
    sample_rate: u32,
    text: Seq<char>,
    dot: nat,
    at: int,
)
    requires
        is_message(text),
        dot > 0,
        100 * dot >= sample_rate,
        0 <= at < text.len(),
        code_of(text[at]).contains('.'),
        envelopes.contains(peak),
        forall|i: int| 0 <= i < envelopes.len() ==> #[trigger] envelopes[i] <= peak,
        envelopes.len() == samples_of(keyed_text(keyed_message(text), dot)).len(),
        forall|i: int|
            0 <= i < envelopes.len() ==> (2 * #[trigger] envelopes[i] > peak
                <==> samples_of(keyed_text(keyed_message(text), dot))[i]),
    ensures
        is_keying(envelopes, sample_rate, dot),
        morse_text(morse_runs(envelopes), dot) == text,
        forall|other: nat| #[trigger] is_keying(envelopes, sample_rate, other) ==> other == dot,
{
    let letters = keyed_message(text);
    let runs = keyed_text(letters, dot);
    law_loudest_is_the_greatest(envelopes);
    let k = choose|k: int| 0 <= k < envelopes.len() && envelopes[k] == peak;
    assert(envelopes[k] <= loudest(envelopes));
    let j = choose|j: int| 0 <= j < envelopes.len() && envelopes[j] == loudest(envelopes);
    assert(envelopes[j] <= peak);
    assert(loudest(envelopes) == peak);
    assert(key_down(envelopes) =~= samples_of(runs));
    lemma_keyed_message(text);
    lemma_text_takes_turns(letters, dot);
    law_stretches_are_found_again(runs);
    law_morse_reads_back_the_message(text, dot);
    assert(morse_runs(envelopes) == runs);
    lemma_message_letter(text, at);
    let m = choose|m: int| 0 <= m < letters.len() && (#[trigger] letters[m]).pattern == code_of(
        text[at],
    );
    let l = choose|l: int| 0 <= l < code_of(text[at]).len() && code_of(text[at])[l] == '.';
    assert(letters[m].pattern[l] != '-');
    assert(runs.contains((true, dot)));
    let d = choose|d: int| 0 <= d < runs.len() && runs[d] == (true, dot);
    assert(runs[d].0 && runs[d].1 == dot);
    assert(is_shortest_mark(runs, dot));
    assert forall|other: nat| #[trigger] is_keying(envelopes, sample_rate, other) implies other
        == dot by {
        let o = choose|o: int| 0 <= o < runs.len() && (#[trigger] runs[o]).0 && runs[o].1 == other;
        assert(runs[o].1 >= dot);
        assert(other <= runs[d].1);
    }
}

/// Each letter of a message is keyed.
proof fn lemma_message_letter(text: Seq<char>, at: int)
    requires
        0 <= at < text.len(),
        text[0] != ' ',
        text[at] != ' ',
        forall|i: int| 0 <= i < text.len() ==> #[trigger] text[i] == ' ' || is_morse_char(text[i]),
        forall|i: int| 0 < i < text.len() && #[trigger] text[i] == ' ' ==> text[i - 1] != ' ',
    ensures
        exists|m: int|
            0 <= m < keyed_message(text).len() && (#[trigger] keyed_message(text)[m]).pattern
                == code_of(text[at]),
    decreases text.len(),
{
    let front = text.drop_last();
    let before = keyed_message(front);
    let all = keyed_message(text);
    if at == text.len() - 1 {
        assert(all[all.len() - 1].pattern == code_of(text[at]));
    } else {
        assert forall|i: int| 0 <= i < front.len() implies #[trigger] front[i] == ' '
            || is_morse_char(front[i]) by {
            assert(front[i] == text[i]);
        }
        assert forall|i: int| 0 < i < front.len() && #[trigger] front[i] == ' ' implies front[i - 1]
            != ' ' by {
            assert(front[i] == text[i]);
        }
        lemma_message_letter(front, at);
        let m = choose|m: int|
            0 <= m < before.len() && (#[trigger] before[m]).pattern == code_of(text[at]);
        assert(all[m].pattern == before[m].pattern);
    }
}

/// The number in four bytes of a file, the lowest first.
pub open spec fn word_at(bytes: Seq<u8>, i: int) -> int {
    bytes[i] + 256 * bytes[i + 1] + 65_536 * bytes[i + 2] + 16_777_216 * bytes[i + 3]
}

/// The number in two bytes of a file, the lowest first.
pub open spec fn half_at(bytes: Seq<u8>, i: int) -> int {
    bytes[i] + 256 * bytes[i + 1]
}

/// A WAV header says what the file holds: each number is read back from its place, the sizes are
/// those of the samples, and the rates follow from sample rate, channels and bits.
#[verifier::spinoff_prover]
#[verifier::rlimit(60)]
pub proof fn law_wav_header_reads_back(rate: int, channels: int, bits: int, data_size: int)
    requires
        0 <= rate,
        0 <= channels <= 0xffff,
        0 <= bits <= 0xffff,
        0 <= rate <= 0xffff_ffff,
        0 <= rate * channels * bits / 8 <= 0xffff_ffff,
        0 <= channels * bits / 8 <= 0xffff,
        0 <= data_size <= 0xffff_ffff - 36,
    ensures
        ({
            let h = wav_header(rate, channels, bits, data_size);
            &&& h.len() == 44
            &&& word_at(h, 4) == 36 + data_size
            &&& word_at(h, 16) == 16
            &&& half_at(h, 20) == 1
            &&& half_at(h, 22) == channels
            &&& word_at(h, 24) == rate
            &&& word_at(h, 28) == rate * channels * bits / 8
            &&& half_at(h, 32) == channels * bits / 8
            &&& half_at(h, 34) == bits
            &&& word_at(h, 40) == data_size
            &&& h.subrange(0, 4) == seq![0x52u8, 0x49u8, 0x46u8, 0x46u8]
            &&& h.subrange(8, 16) == seq![
                0x57u8,
                0x41u8,
                0x56u8,
                0x45u8,
                0x66u8,
                0x6du8,
                0x74u8,
                0x20u8,
            ]
            &&& h.subrange(36, 40) == seq![0x64u8, 0x61u8, 0x74u8, 0x61u8]
        }),
{
    let byte_rate = rate * channels * bits / 8;
    let block = channels * bits / 8;
    lemma_four_bytes(36 + data_size);
    lemma_four_bytes(16);
    lemma_four_bytes(rate);
    lemma_four_bytes(byte_rate);
    lemma_four_bytes(data_size);
    lemma_two_bytes(1);
    lemma_two_bytes(channels);
    lemma_two_bytes(block);
    lemma_two_bytes(bits);
    lemma_header_places(
        seq![0x52u8, 0x49u8, 0x46u8, 0x46u8],
        le4(36 + data_size),
        seq![0x57u8, 0x41u8, 0x56u8, 0x45u8],
        seq![0x66u8, 0x6du8, 0x74u8, 0x20u8],
        le4(16),
        le2(1),
        le2(channels),
        le4(rate),
        le4(byte_rate),
        le2(block),
        le2(bits),
        seq![0x64u8, 0x61u8, 0x74u8, 0x61u8],
        le4(data_size),
    );
    let marks = seq![0x57u8, 0x41u8, 0x56u8, 0x45u8] + seq![0x66u8, 0x6du8, 0x74u8, 0x20u8];
    assert(marks =~= seq![
        0x57u8,
        0x41u8,
        0x56u8,
        0x45u8,
        0x66u8,
        0x6du8,
        0x74u8,
        0x20u8,
    ]);
}

/// Where the parts of a header stand.
proof fn lemma_header_places(
    riff: Seq<u8>,
    size: Seq<u8>,
    wave: Seq<u8>,
    fmt: Seq<u8>,
    sixteen: Seq<u8>,
    one: Seq<u8>,
    channels: Seq<u8>,
    rate: Seq<u8>,
    byte_rate: Seq<u8>,
    block: Seq<u8>,
    bits: Seq<u8>,
    data: Seq<u8>,
    data_size: Seq<u8>,
)
    requires
        riff.len() == 4,
        size.len() == 4,
        wave.len() == 4,
        fmt.len() == 4,
        sixteen.len() == 4,
        one.len() == 2,
        channels.len() == 2,
        rate.len() == 4,
        byte_rate.len() == 4,
        block.len() == 2,
        bits.len() == 2,
        data.len() == 4,
        data_size.len() == 4,
    ensures
        ({
            let h = riff + size + wave + fmt + sixteen + one + channels + rate + byte_rate + block
                + bits + data + data_size;
            &&& h.len() == 44
            &&& h.subrange(0, 4) == riff
            &&& word_at(h, 4) == word_at(size, 0)
            &&& h.subrange(8, 16) == wave + fmt
            &&& word_at(h, 16) == word_at(sixteen, 0)
            &&& half_at(h, 20) == half_at(one, 0)
            &&& half_at(h, 22) == half_at(channels, 0)
            &&& word_at(h, 24) == word_at(rate, 0)
            &&& word_at(h, 28) == word_at(byte_rate, 0)
            &&& half_at(h, 32) == half_at(block, 0)
            &&& half_at(h, 34) == half_at(bits, 0)
            &&& h.subrange(36, 40) == data
            &&& word_at(h, 40) == word_at(data_size, 0)
        }),
{
    let h = riff + size + wave + fmt + sixteen + one + channels + rate + byte_rate + block + bits
        + data + data_size;
    assert(h.subrange(0, 4) =~= riff);
    assert(h.subrange(8, 16) =~= wave + fmt);
    assert(h.subrange(36, 40) =~= data);
}

/// A number of 16 bits is made of its two bytes.
proof fn lemma_two_bytes(n: int)
    requires
        0 <= n <= 0xffff,
    ensures
        half_at(le2(n), 0) == n,
        le2(n).len() == 2,
{
}

/// A number of 32 bits is made of its four bytes.
proof fn lemma_four_bytes(n: int)
    requires
        0 <= n <= 0xffff_ffff,
    ensures
        word_at(le4(n), 0) == n,
        le4(n).len() == 4,
{
}

/// A stretch is read by its length: with the key down it is a dot below two dots and a dash from
/// there on; with the key up it ends nothing below two dots, a letter from there on, and from five
/// dots on a word too.
pub proof fn law_stretches_are_read_by_length(runs: Seq<(bool, nat)>, n: nat, dot: nat)
    ensures
        ({
            let s = read_runs(runs, dot);
            let down = read_runs(runs.push((true, n)), dot);
            let up = read_runs(runs.push((false, n)), dot);
            &&& down.text == s.text
            &&& down.pattern == s.pattern.push(
                if n < 2 * dot {
                    '.'
                } else {
                    '-'
                },
            )
            &&& n < 2 * dot ==> up == s
            &&& n >= 2 * dot ==> up.pattern.len() == 0
            &&& n >= 2 * dot && s.pattern.len() > 0 ==> (s.text + letter_of(
                s.pattern,
            )).is_prefix_of(up.text)
            &&& 2 * dot <= n < 5 * dot && s.pattern.len() > 0 ==> up.text == s.text + letter_of(
                s.pattern,
            )
            &&& 2 * dot <= n < 5 * dot && s.pattern.len() == 0 ==> up.text == s.text
            &&& n >= 5 * dot && n >= 2 * dot && s.pattern.len() > 0 ==> up.text == s.text
                + letter_of(s.pattern) + seq![' ']
        }),
{
    let s = read_runs(runs, dot);
    assert(runs.push((true, n)).drop_last() =~= runs);
    assert(runs.push((false, n)).drop_last() =~= runs);
    reveal_strlit("-");
    reveal_strlit(".");
    reveal_strlit(" ");
    assert("-"@ =~= seq!['-']);
    assert("."@ =~= seq!['.']);
    assert(" "@ =~= seq![' ']);
    let down = read_runs(runs.push((true, n)), dot);
    assert(down.pattern =~= s.pattern.push(
        if n < 2 * dot {
            '.'
        } else {
            '-'
        },
    ));
    if n >= 2 * dot && s.pattern.len() > 0 {
        lemma_letter(s.pattern);
        let t = s.text + letter_of(s.pattern);
        let up = read_runs(runs.push((false, n)), dot);
        assert(t.last() == letter_of(s.pattern)[0]);
        assert(up.text.subrange(0, t.len() as int) =~= t);
    }
}

/// Noise is no Morse code: where the shortest mark lasts less than a hundredth of a second, or
/// there is none, nothing is read.
pub proof fn law_noise_is_not_read(envelopes: Seq<u32>, sample_rate: u32, dot: nat)
    requires
        is_keying(envelopes, sample_rate, dot),
    ensures
        100 * dot >= sample_rate,
        exists|i: int|
            0 <= i < morse_runs(envelopes).len() && (#[trigger] morse_runs(envelopes)[i]) == (
                true,
                dot,
            ),
        forall|i: int|
            0 <= i < morse_runs(envelopes).len() && (#[trigger] morse_runs(envelopes)[i]).0
                ==> morse_runs(envelopes)[i].1 >= dot,
{
    let runs = morse_runs(envelopes);
    let i = choose|i: int| 0 <= i < runs.len() && (#[trigger] runs[i]).0 && runs[i].1 == dot;
    assert(runs[i] == (true, dot));
}

/// The stretches of a recording make it up: put one behind the other they are its samples, and
/// they take turns.
pub proof fn law_stretches_make_up_the_recording(keyed: Seq<bool>)
    ensures
        samples_of(run_lengths(keyed)) == keyed,
        take_turns(run_lengths(keyed)),
    decreases keyed.len(),
{
    if keyed.len() > 0 {
        let front = keyed.drop_last();
        let v = keyed.last();
        law_stretches_make_up_the_recording(front);
        let r = run_lengths(front);
        let all = run_lengths(keyed);
        assert(keyed =~= front.push(v));
        if r.len() > 0 && r.last().0 == v {
            let n = r.last().1;
            assert(all.drop_last() =~= r.drop_last());
            assert(all.last() == (v, (n + 1) as nat));
            assert(samples_of(all) =~= samples_of(r).push(v));
            assert(r[r.len() - 1].1 > 0);
            assert forall|i: int| 0 < i < all.len() implies (#[trigger] all[i]).0 != all[i
                - 1].0 by {
                assert(r[i].0 != r[i - 1].0);
            }
        } else {
            assert(all.drop_last() =~= r);
            assert(samples_of(all) =~= samples_of(r).push(v));
            assert forall|i: int| 0 < i < all.len() implies (#[trigger] all[i]).0 != all[i
                - 1].0 by {
                if i < r.len() {
                    assert(r[i].0 != r[i - 1].0);
                }
            }
        }
    } else {
        assert(samples_of(run_lengths(keyed)) =~= keyed);
    }
}

/// A WAV file of audio says what it holds: one channel of 16-bit samples at the given rate, and
/// each sample is read back with its sign.
pub proof fn law_wav_file_says_what_it_holds(pcm: Seq<i16>, rate: int, k: int)
    requires
        0 <= rate,
        rate * 16 <= 0xffff_ffff,
        2 * pcm.len() <= 0xffff_ffff - 36,
    ensures
        ({
            let f = wav_file(pcm, rate);
            &&& word_at(f, 4) == f.len() - 8
            &&& half_at(f, 22) == 1
            &&& word_at(f, 24) == rate
            &&& half_at(f, 34) == 16
            &&& word_at(f, 40) == f.len() - 44
            &&& 0 <= k < pcm.len() ==> {
                let w = half_at(f, 44 + 2 * k);
                pcm[k] == if w >= 32_768 {
                    w - 65_536
                } else {
                    w
                }
            }
        }),
{
    let size = 2 * pcm.len() as int;
    let h = wav_header(rate, 1, 16, size);
    let f = wav_file(pcm, rate);
    law_wav_header_reads_back(rate, 1, 16, size);
    law_wav_length(pcm, rate);
    assert(f[4] == h[4] && f[5] == h[5] && f[6] == h[6] && f[7] == h[7]);
    assert(f[22] == h[22] && f[23] == h[23]);
    assert(f[24] == h[24] && f[25] == h[25] && f[26] == h[26] && f[27] == h[27]);
    assert(f[34] == h[34] && f[35] == h[35]);
    assert(f[40] == h[40] && f[41] == h[41] && f[42] == h[42] && f[43] == h[43]);
    if 0 <= k < pcm.len() {
        law_wav_samples_read_back(pcm, rate, k);
    }
}

} // verus!
