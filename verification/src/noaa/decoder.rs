//! Decoding with noaa-apt.

use crate::path::{parent, parent_of};
use crate::text::{debug_quoted, quoted};
use vstd::prelude::*;

pub use crate::decoder::build_noaa_apt_args;

verus! {

/// How far an attempt to decode a recording came.
#[derive(Clone, Debug)]
pub struct AptAttempt {
    pub input_exists: bool,
    /// The directory of the image could be made.
    pub directory_made: bool,
    /// noaa-apt could be started.
    pub started: bool,
    pub success: bool,
    /// How noaa-apt ended, in words.
    pub status: String,
    /// The image is there.
    pub product_exists: bool,
}

/// Why an attempt brought no image: the first thing that failed. Nothing where it brought one.
pub open spec fn attempt_error(
    attempt: AptAttempt,
    input: Seq<char>,
    image: Seq<char>,
) -> Option<Seq<char>> {
    if !attempt.input_exists {
        Some("入力WAVファイルが存在しません: "@ + debug_quoted(input))
    } else if !attempt.directory_made && parent_of(image) is Some {
        Some("ディレクトリ作成失敗: "@ + debug_quoted(parent_of(image)->0))
    } else if !attempt.started {
        Some(
            "noaa-apt コマンドの実行に失敗しました。noaa-apt CLI がインストールされているか確認してください"@,
        )
    } else if !attempt.success {
        Some("noaa-apt が異常終了しました: status "@ + attempt.status@)
    } else if !attempt.product_exists {
        Some("デコード画像が生成されませんでした: "@ + debug_quoted(image))
    } else {
        None
    }
}

/// Reads what an attempt came to.
pub struct Decoder;

impl Decoder {
    /// Whether the image was decoded, or why not.
    pub fn decode_apt(attempt: &AptAttempt, input_wav: &str, output_png: &str) -> (r: Result<
        (),
        String,
    >)
        ensures
            r is Ok == attempt_error(*attempt, input_wav@, output_png@) is None,
            r is Err ==> Some(r->Err_0@) == attempt_error(*attempt, input_wav@, output_png@),
    {
        if !attempt.input_exists {
            let mut e: String = "入力WAVファイルが存在しません: ".to_owned();
            e.append(quoted(input_wav).as_str());
            return Err(e);
        }
        if !attempt.directory_made {
            if let Some(directory) = parent(output_png) {
                let mut e: String = "ディレクトリ作成失敗: ".to_owned();
                e.append(quoted(directory).as_str());
                return Err(e);
            }
        }
        if !attempt.started {
            return Err(
                "noaa-apt コマンドの実行に失敗しました。noaa-apt CLI がインストールされているか確認してください".to_owned(),
            );
        }
        if !attempt.success {
            let mut e: String = "noaa-apt が異常終了しました: status ".to_owned();
            e.append(attempt.status.as_str());
            return Err(e);
        }
        if !attempt.product_exists {
            let mut e: String = "デコード画像が生成されませんでした: ".to_owned();
            e.append(quoted(output_png).as_str());
            return Err(e);
        }
        Ok(())
    }
}

/// An attempt brings an image only where nothing failed: the recording and the directory were
/// there, and noaa-apt was started, ended with success and left the image.
pub proof fn law_only_a_whole_attempt_brings_an_image(
    attempt: AptAttempt,
    input: Seq<char>,
    image: Seq<char>,
)
    ensures
        attempt_error(attempt, input, image) is None <==> attempt.input_exists && (
        attempt.directory_made || parent_of(image) is None) && attempt.started && attempt.success
            && attempt.product_exists,
{
}

} // verus!
