//! Speech.

pub use crate::voicevox::{QueryReply, SpeechReply, VoicevoxClient};
