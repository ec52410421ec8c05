//! Decoding of a recorded pass: which outside decoder runs, with what arguments, and what its run
//! amounts to. A result claims an image only where there is one.

use crate::json::{json_document, opt_pairs, parse_json, telemetry_from_json, telemetry_items};
use crate::path::{extension_equals, extension_is, has_extension, name_extension};
use crate::text::{
    contains, decimal, digits, digits_value, has_text, law_digits_read_back, lines, lowercase,
    opt_text, push_text, sets, text_lines, texts, trim, trimmed, unicode_lower, views,
};
use vstd::prelude::*;

pub use crate::engine::{
    CubeSatDecodeOutcome, DecodeTask, DecodeResult, DecodeStep, Decoder, DecoderEngine, Program,
    Rendering, RunReport,
};

verus! {

/// The arguments of noaa-apt.
pub open spec fn noaa_apt_args(input: Seq<char>, output: Seq<char>) -> Seq<Seq<char>> {
    seq![input, "-o"@, output]
}

/// The arguments of satdump for a Meteor-M recording.
pub open spec fn lrpt_args(pipeline: Seq<char>, input: Seq<char>, output: Seq<char>) -> Seq<
    Seq<char>,
> {
    seq![
        pipeline,
        "baseband"@,
        input,
        output,
        "--samplerate"@,
        "240000"@,
        "--baseband_format"@,
        "cu8"@,
    ]
}

/// The arguments of satdump for a CubeSat recording: audio where the file is a WAV file, else raw
/// samples.
pub open spec fn cubesat_args(
    pipeline: Seq<char>,
    input: Seq<char>,
    output: Seq<char>,
    samplerate: nat,
) -> Seq<Seq<char>> {
    if has_extension(input, "wav"@) {
        seq![pipeline, "audio"@, input, output]
    } else {
        seq![
            pipeline,
            "baseband"@,
            input,
            output,
            "--samplerate"@,
            digits(samplerate),
            "--baseband_format"@,
            "cu8"@,
        ]
    }
}

/// The arguments of noaa-apt.
pub fn build_noaa_apt_args(input_wav: &str, output_png: &str) -> (r: Vec<String>)
    ensures
        texts(r@) == noaa_apt_args(input_wav@, output_png@),
{
    let mut r: Vec<String> = Vec::new();
    push_text(&mut r, input_wav);
    push_text(&mut r, "-o");
    push_text(&mut r, output_png);
    assert(texts(r@) =~= noaa_apt_args(input_wav@, output_png@));
    r
}

/// The arguments of satdump for a Meteor-M recording, at the usual 80k symbol rate.
pub fn build_satdump_lrpt_args(input_raw: &str, output_dir: &str) -> (r: Vec<String>)
    ensures
        texts(r@) == lrpt_args("meteor_m2-x_lrpt_80k"@, input_raw@, output_dir@),
{
    build_satdump_lrpt_args_with_pipeline("meteor_m2-x_lrpt_80k", input_raw, output_dir)
}

/// The arguments of satdump for a Meteor-M recording.
pub fn build_satdump_lrpt_args_with_pipeline(
    pipeline: &str,
    input_raw: &str,
    output_dir: &str,
) -> (r: Vec<String>)
    ensures
        texts(r@) == lrpt_args(pipeline@, input_raw@, output_dir@),
{
    let mut r: Vec<String> = Vec::new();
    push_text(&mut r, pipeline);
    push_text(&mut r, "baseband");
    push_text(&mut r, input_raw);
    push_text(&mut r, output_dir);
    push_text(&mut r, "--samplerate");
    push_text(&mut r, "240000");
    push_text(&mut r, "--baseband_format");
    push_text(&mut r, "cu8");
    assert(texts(r@) =~= lrpt_args(pipeline@, input_raw@, output_dir@));
    r
}

/// The satdump pipeline for a satellite, by its name in lower case.
pub open spec fn pipeline_for(lower: Seq<char>) -> Option<Seq<char>> {
    if has_text(lower, "umka"@) || has_text(lower, "rs40"@) || has_text(lower, "rs-40"@) {
        Some("umka_1_dump"@)
    } else if has_text(lower, "funcube"@) || has_text(lower, "ao-73"@) || has_text(lower, "ao73"@) {
        Some("funcube_1"@)
    } else if has_text(lower, "sonate"@) {
        Some("sonate_2"@)
    } else if has_text(lower, "cas-4a"@) || has_text(lower, "cas_4a"@) {
        Some("cas_4a"@)
    } else if has_text(lower, "meteor"@) {
        Some("meteor_m2-x_lrpt_80k"@)
    } else if has_text(lower, "iss"@) {
        Some("iss_sstv"@)
    } else {
        None
    }
}

/// What an optional borrowed text holds.
pub open spec fn opt_str(v: Option<&str>) -> Option<Seq<char>> {
    match v {
        Some(s) => Some(s@),
        None => None,
    }
}

/// The satdump pipeline for a satellite, by its name in lower case.
pub fn pipeline_for_lower_name(lower: &str) -> (r: Option<&'static str>)
    ensures
        opt_str(r) == pipeline_for(lower@),
{
    if contains(lower, "umka") || contains(lower, "rs40") || contains(lower, "rs-40") {
        Some("umka_1_dump")
    } else if contains(lower, "funcube") || contains(lower, "ao-73") || contains(lower, "ao73") {
        Some("funcube_1")
    } else if contains(lower, "sonate") {
        Some("sonate_2")
    } else if contains(lower, "cas-4a") || contains(lower, "cas_4a") {
        Some("cas_4a")
    } else if contains(lower, "meteor") {
        Some("meteor_m2-x_lrpt_80k")
    } else if contains(lower, "iss") {
        Some("iss_sstv")
    } else {
        None
    }
}

/// The satdump pipeline for a satellite, by its name.
pub fn satdump_pipeline_for_satellite(sat_name: &str) -> (r: Option<&'static str>)
    ensures
        opt_str(r) == pipeline_for(unicode_lower(sat_name@)),
{
    let lower: String = lowercase(sat_name);
    pipeline_for_lower_name(lower.as_str())
}

/// The arguments of satdump for a CubeSat recording.
pub fn build_satdump_cubesat_args(
    pipeline: &str,
    input_file: &str,
    output_dir: &str,
    samplerate: u32,
) -> (r: Vec<String>)
    ensures
        texts(r@) == cubesat_args(pipeline@, input_file@, output_dir@, samplerate as nat),
{
    let mut r: Vec<String> = Vec::new();
    push_text(&mut r, pipeline);
    if extension_is(input_file, "wav") {
        push_text(&mut r, "audio");
        push_text(&mut r, input_file);
        push_text(&mut r, output_dir);
    } else {
        push_text(&mut r, "baseband");
        push_text(&mut r, input_file);
        push_text(&mut r, output_dir);
        push_text(&mut r, "--samplerate");
        push_text(&mut r, decimal(samplerate as u64).as_str());
        push_text(&mut r, "--baseband_format");
        push_text(&mut r, "cu8");
    }
    assert(texts(r@) =~= cubesat_args(pipeline@, input_file@, output_dir@, samplerate as nat));
    r
}

/// An entry below the directory of a session.
#[derive(Clone, Debug)]
pub struct FoundFile {
    pub path: String,
    pub is_dir: bool,
    /// The size in bytes, where it could be read.
    pub len: Option<u64>,
    /// The entry lies in the directory itself, not in one below it.
    pub top_level: bool,
}

/// The entry is an image file whose size is known.
pub open spec fn is_image(f: FoundFile) -> bool {
    &&& !f.is_dir
    &&& f.len is Some
    &&& has_extension(f.path@, "png"@) || has_extension(f.path@, "jpg"@) || has_extension(
        f.path@,
        "jpeg"@,
    )
}

/// Entry `i` is the first of the largest images.
pub open spec fn is_best_image(files: Seq<FoundFile>, i: int) -> bool {
    &&& 0 <= i < files.len()
    &&& is_image(files[i])
    &&& forall|j: int|
        #![trigger files[j]]
        0 <= j < files.len() && is_image(files[j]) ==> files[j].len->0 <= files[i].len->0 && (j < i
            ==> files[j].len->0 < files[i].len->0)
}

/// The first of the largest images, where there is an image.
pub open spec fn best_image(files: Seq<FoundFile>) -> Option<Seq<char>> {
    if exists|i: int| is_best_image(files, i) {
        Some(files[choose|i: int| is_best_image(files, i)].path@)
    } else {
        None
    }
}

/// The first of the largest images, where there is an image.
pub fn find_best_image_in_dir(files: &[FoundFile]) -> (r: Option<String>)
    ensures
        opt_text(r) == best_image(files@),
        r is None ==> forall|i: int| 0 <= i < files@.len() ==> !is_image(#[trigger] files@[i]),
{
    let mut best: Option<usize> = None;
    let mut i: usize = 0;
    while i < files.len()
        invariant
            i <= files@.len(),
            match best {
                Some(b) => b < i && is_image(files@[b as int]) && (forall|j: int|
                    #![trigger files@[j]]
                    0 <= j < i && is_image(files@[j]) ==> files@[j].len->0 <= files@[b as int].len->0
                        && (j < b ==> files@[j].len->0 < files@[b as int].len->0)),
                None => forall|j: int| 0 <= j < i ==> !is_image(#[trigger] files@[j]),
            },
        decreases files@.len() - i,
    {
        let f: &FoundFile = &files[i];
        if !f.is_dir {
            if let Some(len) = f.len {
                if extension_is(f.path.as_str(), "png") || extension_is(f.path.as_str(), "jpg")
                    || extension_is(f.path.as_str(), "jpeg") {
                    assert(is_image(files@[i as int]));
                    match best {
                        None => {
                            best = Some(i);
                        },
                        Some(b) => {
                            if let Some(longest) = files[b].len {
                                if len > longest {
                                    best = Some(i);
                                }
                            }
                        },
                    }
                }
            }
        }
        i = i + 1;
    }
    match best {
        Some(b) => {
            proof {
                assert(is_best_image(files@, b as int));
                let c = choose|c: int| is_best_image(files@, c);
                assert(is_best_image(files@, c));
                assert(files@[b as int].len->0 == files@[c].len->0);
                assert(b == c);
            }
            Some(files[b].path.as_str().to_owned())
        },
        None => None,
    }
}

/// A file of CADU frames lies in the directory.
pub open spec fn has_cadu(files: Seq<FoundFile>) -> bool {
    exists|i: int|
        0 <= i < files.len() && (#[trigger] files[i]).top_level && name_extension(files[i].path@)
            == Some("cadu"@)
}

/// Whether a file of CADU frames lies in the directory.
pub fn has_cadu_files(files: &[FoundFile]) -> (r: bool)
    ensures
        r == has_cadu(files@),
{
    let mut i: usize = 0;
    while i < files.len()
        invariant
            i <= files@.len(),
            forall|j: int|
                0 <= j < i ==> !((#[trigger] files@[j]).top_level && name_extension(files@[j].path@)
                    == Some("cadu"@)),
        decreases files@.len() - i,
    {
        if files[i].top_level && extension_equals(files[i].path.as_str(), "cadu") {
            return true;
        }
        i = i + 1;
    }
    false
}

/// The telemetry items in the contents of `telemetry.json`, where the file was read.
pub open spec fn telemetry_in(content: Option<Seq<char>>) -> Option<Seq<(Seq<char>, Seq<char>)>> {
    match content {
        Some(text) => match json_document(text) {
            Some(document) => telemetry_items(document),
            None => None,
        },
        None => None,
    }
}

/// The telemetry items in the contents of `telemetry.json`, where the file was read.
pub fn extract_telemetry_from_dir(content: &Option<String>) -> (r: Option<Vec<(String, String)>>)
    ensures
        opt_pairs(r) == telemetry_in(opt_text(*content)),
{
    match content {
        Some(text) => match parse_json(text.as_str()) {
            Some(document) => telemetry_from_json(&document),
            None => None,
        },
        None => None,
    }
}

/// The lines that are not blank.
pub open spec fn filled(all: Seq<Seq<char>>) -> Seq<Seq<char>> {
    all.filter(|line: Seq<char>| trimmed(line).len() > 0)
}

/// The last three of `all`.
pub open spec fn last_three(all: Seq<Seq<char>>) -> Seq<Seq<char>> {
    if all.len() > 3 {
        all.skip(all.len() - 3)
    } else {
        all
    }
}

/// The end of what a program wrote: the last three lines that are not blank, of its errors or,
/// where it wrote none, of its output.
pub open spec fn error_snippet(stderr: Seq<char>, stdout: Seq<char>) -> Seq<char> {
    let text = if trimmed(stderr).len() > 0 {
        stderr
    } else {
        stdout
    };
    let written = filled(text_lines(text));
    if written.len() == 0 {
        "詳細ログなし"@
    } else {
        crate::text::joined(last_three(written), "; "@)
    }
}

/// The end of what a program wrote.
pub fn extract_error_snippet(stderr: &str, stdout: &str) -> (r: String)
    ensures
        r@ == error_snippet(stderr@, stdout@),
{
    let text: &str = if !trim(stderr).is_empty() {
        stderr
    } else {
        stdout
    };
    let all: Vec<&str> = lines(text);
    let ghost whole = text_lines(text@);
    let ghost keep = |line: Seq<char>| trimmed(line).len() > 0;
    let mut written: Vec<String> = Vec::new();
    let mut i: usize = 0;
    proof {
        reveal(Seq::filter);
        assert(texts(written@) =~= whole.take(0).filter(keep));
    }
    while i < all.len()
        invariant
            views(all@) == whole,
            keep == (|line: Seq<char>| trimmed(line).len() > 0),
            i <= all@.len(),
            texts(written@) == whole.take(i as int).filter(keep),
        decreases all@.len() - i,
    {
        proof {
            assert(whole[i as int] == all@[i as int]@);
            crate::text::lemma_filter_push(whole.take(i as int), all@[i as int]@, keep);
            assert(whole.take(i + 1) =~= whole.take(i as int).push(all@[i as int]@));
        }
        if !trim(all[i]).is_empty() {
            push_text(&mut written, all[i]);
        }
        i = i + 1;
    }
    assert(views(all@).len() == all@.len());
    assert(whole.take(i as int) =~= whole);
    let n: usize = written.len();
    assert(texts(written@).len() == n);
    if n == 0 {
        return "詳細ログなし".to_owned();
    }
    let mut last: Vec<String> = Vec::new();
    let from: usize = if n > 3 {
        n - 3
    } else {
        0
    };
    let mut k: usize = from;
    assert(texts(last@) =~= texts(written@).subrange(from as int, from as int));
    while k < n
        invariant
            n == written@.len(),
            from <= k <= n,
            texts(last@) == texts(written@).subrange(from as int, k as int),
        decreases n - k,
    {
        push_text(&mut last, written[k].as_str());
        k = k + 1;
        assert(texts(last@) =~= texts(written@).subrange(from as int, k as int));
    }
    assert(texts(last@) =~= last_three(texts(written@)));
    crate::text::join(&last, "; ")
}

/// satdump reads a Meteor-M recording as it was made: behind `--samplerate` stands 240000, the rate
/// of the receiver, and behind `--baseband_format` stands cu8, unsigned bytes. The pipeline comes
/// first, then the kind of input, the recording, and the directory that it writes to.
pub proof fn law_lrpt_options_have_their_values(
    pipeline: Seq<char>,
    input: Seq<char>,
    output: Seq<char>,
)
    ensures
        ({
            let args = lrpt_args(pipeline, input, output);
            &&& args.len() == 8
            &&& args.take(4) == seq![pipeline, "baseband"@, input, output]
            &&& sets(args.skip(4), "--samplerate"@, "240000"@)
            &&& sets(args.skip(4), "--baseband_format"@, "cu8"@)
            &&& forall|i: int|
                4 <= i < 7 && (#[trigger] args[i] == "--samplerate"@) ==> digits_value(args[i + 1])
                    == 240_000
        }),
{
    let args = lrpt_args(pipeline, input, output);
    let rest = args.skip(4);
    lemma_satdump_options();
    assert(args.take(4) =~= seq![pipeline, "baseband"@, input, output]);
    assert(rest[0] == "--samplerate"@ && rest[1] == "240000"@);
    assert(rest[2] == "--baseband_format"@ && rest[3] == "cu8"@);
    assert(args[4] == "--samplerate"@ && args[5] == "240000"@);
    assert(args[6] == "--baseband_format"@);
    reveal_strlit("240000");
    assert("240000"@ =~= seq!['2', '4', '0', '0', '0', '0']);
    assert(seq!['2', '4', '0', '0', '0', '0'].drop_last() =~= seq!['2', '4', '0', '0', '0']);
    assert(seq!['2', '4', '0', '0', '0'].drop_last() =~= seq!['2', '4', '0', '0']);
    assert(seq!['2', '4', '0', '0'].drop_last() =~= seq!['2', '4', '0']);
    assert(seq!['2', '4', '0'].drop_last() =~= seq!['2', '4']);
    assert(seq!['2', '4'].drop_last() =~= seq!['2']);
    assert(seq!['2'].drop_last() =~= Seq::<char>::empty());
    reveal_with_fuel(digits_value, 8);
}

/// The options of satdump differ from each other and from their values.
proof fn lemma_satdump_options()
    ensures
        "--samplerate"@.len() == 12,
        "--baseband_format"@.len() == 17,
        "240000"@.len() == 6,
        "cu8"@.len() == 3,
        "--samplerate"@[0] == '-',
        "audio"@.len() == 5,
        "baseband"@.len() == 8,
{
    reveal_strlit("--samplerate");
    reveal_strlit("--baseband_format");
    reveal_strlit("240000");
    reveal_strlit("cu8");
    reveal_strlit("audio");
    reveal_strlit("baseband");
}

/// satdump reads a CubeSat recording as it was made: a WAV file as audio, without options, and any
/// other file as raw unsigned bytes at the sample rate that is behind `--samplerate`.
pub proof fn law_cubesat_options_have_their_values(
    pipeline: Seq<char>,
    input: Seq<char>,
    output: Seq<char>,
    samplerate: nat,
)
    ensures
        ({
            let args = cubesat_args(pipeline, input, output, samplerate);
            &&& has_extension(input, "wav"@) ==> args == seq![pipeline, "audio"@, input, output]
            &&& !has_extension(input, "wav"@) ==> {
                &&& args.len() == 8
                &&& args.take(4) == seq![pipeline, "baseband"@, input, output]
                &&& sets(args.skip(4), "--samplerate"@, digits(samplerate))
                &&& sets(args.skip(4), "--baseband_format"@, "cu8"@)
            }
        }),
{
    let args = cubesat_args(pipeline, input, output, samplerate);
    lemma_satdump_options();
    law_digits_read_back(samplerate);
    if !has_extension(input, "wav"@) {
        let rest = args.skip(4);
        assert(args.take(4) =~= seq![pipeline, "baseband"@, input, output]);
        reveal_strlit("--baseband_format");
        assert(crate::text::is_digit(digits(samplerate)[0]));
        assert(rest[0] == "--samplerate"@ && rest[1] == digits(samplerate));
        assert(rest[2] == "--baseband_format"@ && rest[3] == "cu8"@);
    }
}

/// noaa-apt is given the recording, and the image that it is to write behind `-o`.
pub proof fn law_noaa_apt_writes_the_image(input: Seq<char>, output: Seq<char>)
    ensures
        noaa_apt_args(input, output).len() == 3,
        noaa_apt_args(input, output)[0] == input,
        sets(noaa_apt_args(input, output).skip(1), "-o"@, output),
{
    let rest = noaa_apt_args(input, output).skip(1);
    assert(rest[0] == "-o"@ && rest[1] == output);
}

/// The image that is shown is the largest there is: an image file, not a directory, of a size that
/// no other image file exceeds; one is found where there is any.
pub proof fn law_best_image_is_the_largest(files: Seq<FoundFile>)
    ensures
        best_image(files) is Some <==> exists|i: int|
            0 <= i < files.len() && is_image(#[trigger] files[i]),
        best_image(files) is Some ==> exists|i: int|
            0 <= i < files.len() && (#[trigger] files[i]).path@ == best_image(files)->0
                && is_image(files[i]) && (forall|j: int|
                0 <= j < files.len() && is_image(#[trigger] files[j]) ==> files[j].len->0
                    <= files[i].len->0),
        forall|i: int|
            0 <= i < files.len() && is_image(#[trigger] files[i]) ==> !files[i].is_dir
                && files[i].len is Some && (has_extension(files[i].path@, "png"@)
                || has_extension(files[i].path@, "jpg"@) || has_extension(
                files[i].path@,
                "jpeg"@,
            )),
        forall|i: int|
            0 <= i < files.len() && !(#[trigger] files[i]).is_dir && files[i].len is Some && (
            has_extension(files[i].path@, "png"@) || has_extension(files[i].path@, "jpg"@)
                || has_extension(files[i].path@, "jpeg"@)) ==> is_image(files[i]),
{
    if exists|i: int| 0 <= i < files.len() && is_image(#[trigger] files[i]) {
        let i = choose|i: int| 0 <= i < files.len() && is_image(#[trigger] files[i]);
        let b = lemma_some_image_is_best(files, files.len(), i);
        assert(is_best_image(files, b));
    }
    if best_image(files) is Some {
        let b = choose|i: int| is_best_image(files, i);
        assert(is_best_image(files, b));
        assert(files[b].path@ == best_image(files)->0);
    }
}

/// Where there is an image among the first `n` entries, one of them is the first of the largest.
proof fn lemma_some_image_is_best(files: Seq<FoundFile>, n: nat, i: int) -> (b: int)
    requires
        n <= files.len(),
        0 <= i < n,
        is_image(files[i]),
    ensures
        0 <= b < n,
        is_image(files[b]),
        forall|j: int|
            #![trigger files[j]]
            0 <= j < n && is_image(files[j]) ==> files[j].len->0 <= files[b].len->0 && (j < b
                ==> files[j].len->0 < files[b].len->0),
    decreases n,
{
    let m = (n - 1) as nat;
    if exists|k: int| 0 <= k < m && is_image(#[trigger] files[k]) {
        let k = choose|k: int| 0 <= k < m && is_image(#[trigger] files[k]);
        let b = lemma_some_image_is_best(files, m, k);
        if is_image(files[m as int]) && files[m as int].len->0 > files[b].len->0 {
            m as int
        } else {
            b
        }
    } else {
        i
    }
}

/// The pipeline goes by the satellite's name: there is one where the name holds a word that is
/// known, and it is the one for a satellite of which the name holds a word.
pub proof fn law_pipeline_goes_by_the_name(lower: Seq<char>)
    ensures
        pipeline_for(lower) is Some <==> (has_text(lower, "umka"@) || has_text(lower, "rs40"@)
            || has_text(lower, "rs-40"@) || has_text(lower, "funcube"@) || has_text(
            lower,
            "ao-73"@,
        ) || has_text(lower, "ao73"@) || has_text(lower, "sonate"@) || has_text(lower, "cas-4a"@)
            || has_text(lower, "cas_4a"@) || has_text(lower, "meteor"@) || has_text(
            lower,
            "iss"@,
        )),
        pipeline_for(lower) == Some("umka_1_dump"@) ==> has_text(lower, "umka"@) || has_text(
            lower,
            "rs40"@,
        ) || has_text(lower, "rs-40"@),
        pipeline_for(lower) == Some("funcube_1"@) ==> has_text(lower, "funcube"@) || has_text(
            lower,
            "ao-73"@,
        ) || has_text(lower, "ao73"@),
        pipeline_for(lower) == Some("sonate_2"@) ==> has_text(lower, "sonate"@),
        pipeline_for(lower) == Some("cas_4a"@) ==> has_text(lower, "cas-4a"@) || has_text(
            lower,
            "cas_4a"@,
        ),
        pipeline_for(lower) == Some("meteor_m2-x_lrpt_80k"@) ==> has_text(lower, "meteor"@),
        pipeline_for(lower) == Some("iss_sstv"@) ==> has_text(lower, "iss"@),
        pipeline_for(lower) is Some ==> pipeline_for(lower)->0 == "umka_1_dump"@ || pipeline_for(
            lower,
        )->0 == "funcube_1"@ || pipeline_for(lower)->0 == "sonate_2"@ || pipeline_for(lower)->0
            == "cas_4a"@ || pipeline_for(lower)->0 == "meteor_m2-x_lrpt_80k"@ || pipeline_for(
            lower,
        )->0 == "iss_sstv"@,
{
    reveal_strlit("umka_1_dump");
    reveal_strlit("funcube_1");
    reveal_strlit("sonate_2");
    reveal_strlit("cas_4a");
    reveal_strlit("meteor_m2-x_lrpt_80k");
    reveal_strlit("iss_sstv");
    assert("umka_1_dump"@[0] == 'u');
    assert("funcube_1"@[0] == 'f');
    assert("sonate_2"@[0] == 's');
    assert("cas_4a"@[0] == 'c');
    assert("meteor_m2-x_lrpt_80k"@[0] == 'm');
    assert("iss_sstv"@[0] == 'i');
}

/// The end of what a program wrote is its own words: without errors or output there are none, and
/// errors come before output.
pub proof fn law_errors_come_before_output(stderr: Seq<char>, stdout: Seq<char>)
    ensures
        trimmed(stderr).len() > 0 ==> error_snippet(stderr, stdout) == error_snippet(
            stderr,
            Seq::empty(),
        ),
        trimmed(stderr).len() == 0 ==> error_snippet(stderr, stdout) == error_snippet(
            Seq::empty(),
            stdout,
        ),
{
    assert(trimmed(Seq::<char>::empty()).len() == 0);
}

/// What is quoted of a program's words are its last three lines that are not blank, with a
/// semicolon between them, or as many as there are.
pub proof fn law_snippet_is_the_last_lines(stdout: Seq<char>)
    ensures
        ({
            let written = text_lines(stdout).filter(|line: Seq<char>| trimmed(line).len() > 0);
            let said = error_snippet(Seq::empty(), stdout);
            let n = written.len();
            &&& n == 0 ==> said == "詳細ログなし"@
            &&& n == 1 ==> said == written[0]
            &&& n == 2 ==> said == written[0] + "; "@ + written[1]
            &&& n >= 3 ==> said == written[n - 3] + "; "@ + written[n - 2] + "; "@ + written[n - 1]
        }),
{
    let written = filled(text_lines(stdout));
    let n = written.len();
    assert(trimmed(Seq::<char>::empty()).len() == 0);
    reveal_with_fuel(crate::text::joined, 4);
    if n >= 1 {
        let last = last_three(written);
        if n == 2 {
            assert(last.drop_last() =~= seq![written[0]]);
        } else if n >= 3 {
            assert(last.len() == 3);
            assert(last[0] == written[n - 3] && last[1] == written[n - 2] && last[2] == written[n
                - 1]);
            assert(last.drop_last() =~= seq![written[n - 3], written[n - 2]]);
            assert(last.drop_last().drop_last() =~= seq![written[n - 3]]);
        }
    }
}

/// Packets are found where a file of frames lies in the directory of the session itself, and only
/// there.
pub proof fn law_packets_are_found_in_the_directory(files: Seq<FoundFile>)
    ensures
        has_cadu(files) <==> exists|i: int|
            0 <= i < files.len() && (#[trigger] files[i]).top_level && name_extension(
                files[i].path@,
            ) == Some("cadu"@),
{
}

} // verus!
