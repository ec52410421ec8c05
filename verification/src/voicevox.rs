//! Speech: the requests to the speech engine, and what is done with its answers.

use crate::config::VoicevoxConfig;
use crate::text::{decimal, digits, opt_text, trim_end_matches, without_trailing};
use vstd::prelude::*;
use vstd::utf8::encode_utf8;

verus! {

/// `b` is an ASCII letter or digit, or one of `-`, `_`, `.` and `~`.
pub open spec fn is_unreserved(b: u8) -> bool {
    ||| 0x30 <= b <= 0x39
    ||| 0x41 <= b <= 0x5a
    ||| 0x61 <= b <= 0x7a
    ||| b == 0x2d
    ||| b == 0x5f
    ||| b == 0x2e
    ||| b == 0x7e
}

/// The upper-case hexadecimal digit with the value `d`.
pub open spec fn hex_digit(d: int) -> char {
    if d < 10 {
        (48 + d) as char
    } else {
        (55 + d) as char
    }
}

/// A byte in a URL.
pub open spec fn percent_byte(b: u8) -> Seq<char> {
    if is_unreserved(b) {
        seq![b as char]
    } else {
        seq!['%', hex_digit(b as int / 16), hex_digit(b as int % 16)]
    }
}

/// Bytes in a URL.
pub open spec fn percent_encoded(bytes: Seq<u8>) -> Seq<char>
    decreases bytes.len(),
{
    if bytes.len() == 0 {
        Seq::empty()
    } else {
        percent_encoded(bytes.drop_last()) + percent_byte(bytes.last())
    }
}

/// A text as it stands in a URL.
///
/// Calls `urlencoding::encode`: every byte of the UTF-8 form but letters, digits, `-`, `_`, `.`
/// and `~` becomes a percent sign and two upper-case hexadecimal digits.
#[verifier::external_body]
fn url_encode(text: &str) -> (r: String)
    ensures
        r@ == percent_encoded(encode_utf8(text@)),
{
    urlencoding::encode(text).into_owned()
}

/// Talks to the speech engine.
#[derive(Clone, Debug)]
pub struct VoicevoxClient {
    pub config: VoicevoxConfig,
}

/// Where the engine makes a query of a text.
pub open spec fn query_url(config: VoicevoxConfig, text: Seq<char>) -> Seq<char> {
    without_trailing(config.host@, '/') + "/audio_query?text="@ + percent_encoded(
        encode_utf8(text),
    ) + "&speaker="@ + digits(config.speaker_id as nat)
}

/// Where the engine makes speech of a query.
pub open spec fn speech_url(config: VoicevoxConfig) -> Seq<char> {
    without_trailing(config.host@, '/') + "/synthesis?speaker="@ + digits(
        config.speaker_id as nat,
    )
}

/// How the engine answered the request for a query.
#[derive(Clone, Copy, Debug, PartialEq, Eq, Structural)]
pub enum QueryReply {
    NoConnection,
    /// The HTTP status was no success.
    Refused,
    /// The answer was no JSON.
    Unreadable,
    Received,
}

/// How the engine answered the request for speech.
#[derive(Clone, Copy, Debug, PartialEq, Eq, Structural)]
pub enum SpeechReply {
    NoConnection,
    /// The HTTP status was no success.
    Refused,
    /// The audio did not arrive whole.
    Broken,
    /// The audio could not be written to a file.
    NotSaved,
    Saved,
}

impl VoicevoxClient {
    /// A client for the engine in the settings.
    pub fn new(config: VoicevoxConfig) -> (r: Self)
        ensures
            r.config == config,
    {
        VoicevoxClient { config }
    }

    /// Where the engine makes a query of a text.
    pub fn audio_query_url(&self, text: &str) -> (r: String)
        ensures
            r@ == query_url(self.config, text@),
    {
        let mut r: String = trim_end_matches(self.config.host.as_str(), '/').to_owned();
        r.append("/audio_query?text=");
        r.append(url_encode(text).as_str());
        r.append("&speaker=");
        r.append(decimal(self.config.speaker_id as u64).as_str());
        r
    }

    /// Where the engine makes speech of a query.
    pub fn synthesis_url(&self) -> (r: String)
        ensures
            r@ == speech_url(self.config),
    {
        let mut r: String = trim_end_matches(self.config.host.as_str(), '/').to_owned();
        r.append("/synthesis?speaker=");
        r.append(decimal(self.config.speaker_id as u64).as_str());
        r
    }

    /// The first request for saying a text; none where speech is switched off.
    pub fn speak(&self, text: &str) -> (r: Option<String>)
        ensures
            opt_text(r) == if self.config.enabled {
                Some(query_url(self.config, text@))
            } else {
                None
            },
    {
        if self.config.enabled {
            Some(self.audio_query_url(text))
        } else {
            None
        }
    }

    /// The second request, where the first brought a query. An engine that does not answer is no
    /// error: nothing is said. An answer that is no query is one.
    pub fn after_query(&self, reply: QueryReply) -> (r: Result<Option<String>, String>)
        ensures
            r is Err == (reply == QueryReply::Unreadable),
            r is Err ==> r->Err_0@ == "クエリJSONのパースに失敗しました"@,
            r is Ok ==> opt_text(r->Ok_0) == if reply == QueryReply::Received {
                Some(speech_url(self.config))
            } else {
                None
            },
    {
        match reply {
            QueryReply::NoConnection | QueryReply::Refused => Ok(None),
            QueryReply::Unreadable => Err("クエリJSONのパースに失敗しました".to_owned()),
            QueryReply::Received => Ok(Some(self.synthesis_url())),
        }
    }

    /// Whether there is audio to play. An engine that does not answer is no error.
    pub fn after_synthesis(&self, reply: SpeechReply) -> (r: Result<bool, String>)
        ensures
            r is Err == (reply == SpeechReply::Broken || reply == SpeechReply::NotSaved),
            r is Ok ==> r->Ok_0 == (reply == SpeechReply::Saved),
            reply == SpeechReply::Broken ==> r->Err_0@
                == "音声WAVバイナリの受信に失敗しました"@,
            reply == SpeechReply::NotSaved ==> r->Err_0@
                == "一時WAVファイルの書き込みに失敗しました"@,
    {
        match reply {
            SpeechReply::NoConnection | SpeechReply::Refused => Ok(false),
            SpeechReply::Broken => Err("音声WAVバイナリの受信に失敗しました".to_owned()),
            SpeechReply::NotSaved => Err("一時WAVファイルの書き込みに失敗しました".to_owned()),
            SpeechReply::Saved => Ok(true),
        }
    }
}

/// A text in a URL needs no more quoting: every character is a letter, a digit, one of `-`, `_`,
/// `.` and `~`, or the percent sign before two hexadecimal digits; a text of letters and digits
/// stays as it is.
pub proof fn law_encoded_text_is_plain(bytes: Seq<u8>)
    ensures
        forall|i: int|
            0 <= i < percent_encoded(bytes).len() ==> {
                let c = #[trigger] percent_encoded(bytes)[i];
                c == '%' || (c as u32 <= 0x7f && is_unreserved(c as u8))
            },
        (forall|i: int| 0 <= i < bytes.len() ==> is_unreserved(#[trigger] bytes[i]))
            ==> percent_encoded(bytes) == bytes.map_values(|b: u8| b as char),
    decreases bytes.len(),
{
    if bytes.len() > 0 {
        let front = bytes.drop_last();
        law_encoded_text_is_plain(front);
        let b = bytes.last();
        let all = percent_encoded(bytes);
        assert forall|i: int| 0 <= i < all.len() implies {
            let c = #[trigger] all[i];
            c == '%' || (c as u32 <= 0x7f && is_unreserved(c as u8))
        } by {
            let n = percent_encoded(front).len();
            if i < n {
                assert(all[i] == percent_encoded(front)[i]);
            } else {
                assert(all[i] == percent_byte(b)[i - n]);
            }
        }
        if forall|i: int| 0 <= i < bytes.len() ==> is_unreserved(#[trigger] bytes[i]) {
            assert forall|i: int| 0 <= i < front.len() implies is_unreserved(
                #[trigger] front[i],
            ) by {
                assert(front[i] == bytes[i]);
            }
            assert(is_unreserved(bytes[bytes.len() - 1]));
            assert(all =~= bytes.map_values(|b: u8| b as char));
        }
    } else {
        assert(percent_encoded(bytes) =~= bytes.map_values(|b: u8| b as char));
    }
}

/// A byte that is quoted reads back from its two hexadecimal digits.
pub proof fn law_quoted_bytes_read_back(b: u8)
    requires
        !is_unreserved(b),
    ensures
        percent_byte(b).len() == 3,
        percent_byte(b)[0] == '%',
        16 * hex_value(percent_byte(b)[1]) + hex_value(percent_byte(b)[2]) == b,
{
}

/// The value of an upper-case hexadecimal digit.
pub open spec fn hex_value(c: char) -> int {
    if c <= '9' {
        c as u32 - 48
    } else {
        c as u32 - 65 + 10
    }
}

/// The requests go to the engine in the settings, for the speaker in the settings, and the query
/// holds the text that is to be said.
pub proof fn law_requests_go_to_the_engine(config: VoicevoxConfig, text: Seq<char>)
    ensures
        (without_trailing(config.host@, '/') + "/audio_query?text="@ + percent_encoded(
            encode_utf8(text),
        )).is_prefix_of(query_url(config, text)),
        ("&speaker="@ + digits(config.speaker_id as nat)).is_suffix_of(query_url(config, text)),
        (without_trailing(config.host@, '/') + "/synthesis"@).is_prefix_of(speech_url(config)),
        ("?speaker="@ + digits(config.speaker_id as nat)).is_suffix_of(speech_url(config)),
{
    let host = without_trailing(config.host@, '/');
    let who = digits(config.speaker_id as nat);
    let said = percent_encoded(encode_utf8(text));
    let q = query_url(config, text);
    let front = host + "/audio_query?text="@ + said;
    assert(q.subrange(0, front.len() as int) =~= front);
    let back = "&speaker="@ + who;
    assert(q.subrange(q.len() - back.len(), q.len() as int) =~= back);
    let s = speech_url(config);
    reveal_strlit("/synthesis?speaker=");
    reveal_strlit("/synthesis");
    reveal_strlit("?speaker=");
    let first = host + "/synthesis"@;
    assert(s.subrange(0, first.len() as int) =~= first);
    let last = "?speaker="@ + who;
    assert(s.subrange(s.len() - last.len(), s.len() as int) =~= last);
}

} // verus!
