use ground_station::config::{default_timeout_secs, VoicevoxConfig};
use ground_station::voicevox::{QueryReply, SpeechReply, VoicevoxClient};

fn client(enabled: bool) -> VoicevoxClient {
    VoicevoxClient::new(VoicevoxConfig {
        enabled,
        host: "http://localhost:50021/".to_string(),
        speaker_id: 3,
        timeout_secs: default_timeout_secs(),
    })
}

#[test]
fn test_voicevox_url_generation() {
    let config = VoicevoxConfig {
        enabled: true,
        host: "http://localhost:50021/".to_string(),
        speaker_id: 3,
        timeout_secs: 15,
    };
    let client = VoicevoxClient::new(config);
    let query_url = client.audio_query_url("こんにちは");
    assert!(query_url.contains("speaker=3"));
    assert!(query_url.contains("audio_query"));
    assert!(query_url.contains("%E3%81%93%E3%82%93%E3%81%AB%E3%81%A1%E3%81%AF"));
    let synth_url = client.synthesis_url();
    assert!(synth_url.contains("speaker=3"));
    assert!(synth_url.contains("synthesis"));
}

#[test]
fn query_is_percent_encoded() {
    assert_eq!(
        client(true).audio_query_url("a B-_.~/é"),
        "http://localhost:50021/audio_query?text=a%20B-_.~%2F%C3%A9&speaker=3"
    );
}

#[test]
fn speech_degrades_quietly() {
    assert_eq!(client(false).speak("x"), None);
    assert_eq!(client(true).speak("x"), Some(client(true).audio_query_url("x")));
    assert_eq!(client(true).after_query(QueryReply::NoConnection), Ok(None));
    assert_eq!(client(true).after_query(QueryReply::Refused), Ok(None));
    assert_eq!(
        client(true).after_query(QueryReply::Received),
        Ok(Some("http://localhost:50021/synthesis?speaker=3".to_string()))
    );
    assert_eq!(
        client(true).after_query(QueryReply::Unreadable),
        Err("クエリJSONのパースに失敗しました".to_string())
    );
    assert_eq!(client(true).after_synthesis(SpeechReply::NoConnection), Ok(false));
    assert_eq!(client(true).after_synthesis(SpeechReply::Refused), Ok(false));
    assert_eq!(client(true).after_synthesis(SpeechReply::Saved), Ok(true));
    assert!(client(true).after_synthesis(SpeechReply::Broken).is_err());
    assert_eq!(
        client(true).after_synthesis(SpeechReply::NotSaved),
        Err("一時WAVファイルの書き込みに失敗しました".to_string())
    );
    assert_eq!(default_timeout_secs(), 15);
}
