use ground_station::cw::{
    create_cw_wav, create_wav_header, decode_morse_from_envelope_samples, letter,
};

#[test]
fn test_decode_morse_text() {
    let dit_samples = 10;
    let dash_samples = 30;
    let elem_gap = 10;
    let char_gap = 30;
    let word_gap = 70;

    let mut envelopes: Vec<f32> = Vec::new();
    envelopes.extend(vec![1.0f32; dash_samples]);
    envelopes.extend(vec![0.0f32; elem_gap]);
    envelopes.extend(vec![1.0f32; dit_samples]);
    envelopes.extend(vec![0.0f32; elem_gap]);
    envelopes.extend(vec![1.0f32; dit_samples]);
    envelopes.extend(vec![0.0f32; char_gap]);
    envelopes.extend(vec![1.0f32; dit_samples]);
    envelopes.extend(vec![0.0f32; elem_gap]);
    envelopes.extend(vec![1.0f32; dit_samples]);
    envelopes.extend(vec![0.0f32; elem_gap]);
    envelopes.extend(vec![1.0f32; dash_samples]);
    envelopes.extend(vec![0.0f32; elem_gap]);
    envelopes.extend(vec![1.0f32; dit_samples]);
    envelopes.extend(vec![0.0f32; word_gap]);

    let levels: Vec<u32> = envelopes.iter().map(|e| (e * 1000.0) as u32).collect();
    let decoded = decode_morse_from_envelope_samples(&levels, 200);
    assert_eq!(decoded, Some("DF".to_string()));
}

#[test]
fn morse_words_noise_and_silence() {
    let key = |pattern: &[(u32, usize)]| -> Vec<u32> {
        pattern.iter().flat_map(|&(level, n)| vec![level; n]).collect()
    };
    // "E T" with a loud and a less loud key, and a soft background.
    let two = key(&[(10, 40), (900, 10), (10, 70), (600, 30), (10, 5)]);
    assert_eq!(decode_morse_from_envelope_samples(&two, 200), Some("E T".to_string()));
    // A click shorter than a hundredth of a second is noise.
    assert_eq!(decode_morse_from_envelope_samples(&two, 2000), None);
    assert_eq!(decode_morse_from_envelope_samples(&[0; 50], 200), None);
    assert_eq!(decode_morse_from_envelope_samples(&[], 200), None);
    let odd = key(&[(1, 10), (0, 10), (1, 30), (0, 10), (1, 10), (0, 10), (1, 30), (0, 10), (1, 30)]);
    assert_eq!(decode_morse_from_envelope_samples(&odd, 200), Some("?".to_string()));
}

#[test]
fn morse_letters() {
    assert_eq!(letter(".-"), "A");
    assert_eq!(letter("--.."), "Z");
    assert_eq!(letter("-----"), "0");
    assert_eq!(letter("----."), "9");
    assert_eq!(letter("......"), "?");
}

#[test]
fn wav_header_bytes() {
    let h = create_wav_header(48_000, 2, 16, 1000);
    assert_eq!(u32::from_le_bytes(h[4..8].try_into().unwrap()), 1036);
    assert_eq!(u32::from_le_bytes(h[16..20].try_into().unwrap()), 16);
    assert_eq!(u16::from_le_bytes(h[20..22].try_into().unwrap()), 1);
    assert_eq!(u16::from_le_bytes(h[22..24].try_into().unwrap()), 2);
    assert_eq!(u32::from_le_bytes(h[24..28].try_into().unwrap()), 48_000);
    assert_eq!(u32::from_le_bytes(h[28..32].try_into().unwrap()), 192_000);
    assert_eq!(u16::from_le_bytes(h[32..34].try_into().unwrap()), 4);
    assert_eq!(u16::from_le_bytes(h[34..36].try_into().unwrap()), 16);
    assert_eq!(u32::from_le_bytes(h[40..44].try_into().unwrap()), 1000);
}

#[test]
fn test_create_cw_wav() {
    let pcm: Vec<i16> = vec![0, 1, -1, i16::MAX, i16::MIN, 12_345, -20_000];
    let wav_bytes = create_cw_wav(&pcm, 11_025);
    assert!(wav_bytes.len() > 44);
    assert_eq!(&wav_bytes[0..4], b"RIFF");
    assert_eq!(&wav_bytes[8..12], b"WAVE");
    assert_eq!(&wav_bytes[12..16], b"fmt ");
    assert_eq!(&wav_bytes[36..40], b"data");
    let data_len = u32::from_le_bytes(wav_bytes[40..44].try_into().unwrap());
    assert_eq!(wav_bytes.len(), 44 + data_len as usize);
    let back: Vec<i16> = wav_bytes[44..]
        .chunks(2)
        .map(|c| i16::from_le_bytes(c.try_into().unwrap()))
        .collect();
    assert_eq!(back, pcm);
}

#[test]
fn test_create_test_sample_wav_returns_valid_wav() {
    let rate = 11_025;
    let pcm: Vec<i16> = (0..rate / 2)
        .map(|i| {
            let t = i as f32 / rate as f32;
            ((t * 2400.0 * 2.0 * std::f32::consts::PI).sin() * 8000.0) as i16
        })
        .collect();
    let wav_bytes = create_cw_wav(&pcm, rate);
    assert!(wav_bytes.len() > 44);
    assert_eq!(&wav_bytes[0..4], b"RIFF");
    assert_eq!(&wav_bytes[8..12], b"WAVE");
    assert_eq!(&wav_bytes[12..16], b"fmt ");
    assert_eq!(&wav_bytes[36..40], b"data");
    assert_eq!(wav_bytes.len(), 44 + 2 * 5512);
}
