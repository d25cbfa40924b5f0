use std::io::Cursor;

use transcription_core::audio::{mix_frame, mix_planar, normalize_sample, PcmFormat};
use transcription_core::catalog::{best_translation_model, find_model};
use transcription_core::lang::normalize_language;
use transcription_core::text::{str_contains, str_eq, trim};
use transcription_core::timefmt::format_timestamp;
use transcription_core::types::{samples_to_ms, EngineType, ModelInfo, TranscribeError};
use transcription_core::wav::{decode_wav_16k_mono, encode_wav_16k_mono};
use transcription_core::words::{apply_custom_words, levenshtein, similarity};

fn cat_entry(id: &str, engine: EngineType, downloaded: bool, score: u32) -> ModelInfo {
    ModelInfo {
        id: id.to_string(),
        name: id.to_string(),
        engine_type: engine,
        is_downloaded: downloaded,
        path: format!("/m/{}", id),
        accuracy_score: score,
    }
}

#[test]
fn wav_round_trip_is_exact() {
    let samples: Vec<i16> = vec![0, 1, -1, 32767, -32768, 1234, -4321, 100];
    let bytes = encode_wav_16k_mono(&samples);
    assert_eq!(bytes.len(), 44 + 2 * samples.len());
    let back = decode_wav_16k_mono(&bytes).expect("canonical file decodes");
    assert_eq!(back, samples);
    // re-encoding a decoded file reproduces the bytes
    let again = encode_wav_16k_mono(&back);
    assert_eq!(again, bytes);
}

#[test]
fn wav_agrees_with_hound() {
    let samples: Vec<i16> = vec![5, -5, 300, -300, 32767, -32768];
    let bytes = encode_wav_16k_mono(&samples);
    let mut reader = hound::WavReader::new(Cursor::new(bytes.clone())).expect("hound parses it");
    let spec = reader.spec();
    assert_eq!(spec.channels, 1);
    assert_eq!(spec.sample_rate, 16000);
    assert_eq!(spec.bits_per_sample, 16);
    let read: Vec<i16> = reader.samples::<i16>().map(|s| s.unwrap()).collect();
    assert_eq!(read, samples);

    // a file hound writes decodes to the same samples here
    let mut cursor = Cursor::new(Vec::new());
    {
        let spec = hound::WavSpec {
            channels: 1,
            sample_rate: 16000,
            bits_per_sample: 16,
            sample_format: hound::SampleFormat::Int,
        };
        let mut writer = hound::WavWriter::new(&mut cursor, spec).unwrap();
        for s in &samples {
            writer.write_sample(*s).unwrap();
        }
        writer.finalize().unwrap();
    }
    let ours = decode_wav_16k_mono(&cursor.into_inner()).expect("hound's output decodes");
    assert_eq!(ours, samples);
}

#[test]
fn wav_decode_rejects_garbage() {
    let short = vec![0u8; 10];
    assert_eq!(decode_wav_16k_mono(&short).unwrap_err(), TranscribeError::UnsupportedFormat);

    let mut bad = encode_wav_16k_mono(&vec![1i16, 2, 3]);
    bad[0] = b'X';
    assert_eq!(decode_wav_16k_mono(&bad).unwrap_err(), TranscribeError::UnsupportedFormat);

    let mut odd = encode_wav_16k_mono(&vec![1i16, 2, 3]);
    odd.push(0);
    assert_eq!(decode_wav_16k_mono(&odd).unwrap_err(), TranscribeError::DecodeError);
}

#[test]
fn mono_mix_is_arithmetic_mean() {
    assert_eq!(mix_frame(&vec![2, 4]), 3);
    assert_eq!(mix_frame(&vec![7]), 7);
    assert_eq!(mix_frame(&vec![-3, -4]), -4);  // floor of -3.5
    assert_eq!(mix_frame(&vec![i32::MAX, i32::MAX]), i32::MAX);
    assert_eq!(mix_frame(&vec![i32::MIN, i32::MIN]), i32::MIN);
}

#[test]
fn planar_mix_averages_channels() {
    let left = vec![0, 100, -100];
    let right = vec![10, 200, -300];
    let mixed = mix_planar(&vec![left, right]).unwrap();
    assert_eq!(mixed, vec![5, 150, -200]);
    assert_eq!(
        mix_planar(&vec![vec![1, 2], vec![1]]).unwrap_err(),
        TranscribeError::DecodeError
    );
    assert_eq!(mix_planar(&Vec::new()).unwrap_err(), TranscribeError::DecodeError);
}

#[test]
fn normalization_uses_full_scale_magnitudes() {
    assert_eq!(normalize_sample(PcmFormat::S16, 32767), 32767 * 65536);
    assert_eq!(normalize_sample(PcmFormat::S16, -32768), -32768 * 65536);
    assert_eq!(normalize_sample(PcmFormat::U8, 128), 0);
    assert_eq!(normalize_sample(PcmFormat::U8, 0), i32::MIN);
    assert_eq!(normalize_sample(PcmFormat::S24, -8388608), i32::MIN);
    assert_eq!(normalize_sample(PcmFormat::S32, 123456), 123456);
    assert_eq!(normalize_sample(PcmFormat::U32, 0x8000_0000), 0);
}

#[test]
fn samples_to_ms_floors() {
    assert_eq!(samples_to_ms(80_000), 5000);
    assert_eq!(samples_to_ms(16_000), 1000);
    assert_eq!(samples_to_ms(15), 0);
}

#[test]
fn language_codes_normalize() {
    assert_eq!(normalize_language("zh-Hant").as_deref(), Some("zh"));
    assert_eq!(normalize_language("zh-Hans").as_deref(), Some("zh"));
    assert_eq!(normalize_language("zh").as_deref(), Some("zh"));
    assert_eq!(normalize_language("auto"), None);
    assert_eq!(normalize_language("en").as_deref(), Some("en"));
    assert_eq!(normalize_language("").as_deref(), Some(""));
}

#[test]
fn text_helpers_behave() {
    assert!(str_eq("abc", "abc"));
    assert!(!str_eq("abc", "abd"));
    assert!(str_contains("medium-turbo-v3", "turbo"));
    assert!(!str_contains("medium", "turbo"));
    assert!(str_contains("anything", ""));
    assert_eq!(trim("  spaced out \t\n"), "spaced out");
    assert_eq!(trim("   "), "");
}

#[test]
fn catalog_selection_prefers_turbo_then_score() {
    let cat = vec![
        cat_entry("small", EngineType::Whisper, true, 60),
        cat_entry("medium-turbo", EngineType::Whisper, true, 40),
        cat_entry("pk", EngineType::Parakeet, true, 95),
        cat_entry("big", EngineType::Whisper, false, 99),
    ];
    let best = best_translation_model(&cat).unwrap();
    assert_eq!(cat[best].id, "medium-turbo");

    let no_whisper = vec![cat_entry("pk", EngineType::Parakeet, true, 95)];
    assert!(best_translation_model(&no_whisper).is_none());

    // ties go to the later entry, as the original selection did
    let tie = vec![
        cat_entry("a", EngineType::Whisper, true, 70),
        cat_entry("b", EngineType::Whisper, true, 70),
    ];
    assert_eq!(tie[best_translation_model(&tie).unwrap()].id, "b");
}

#[test]
fn find_model_returns_first_match() {
    let cat = vec![
        cat_entry("a", EngineType::Whisper, true, 1),
        cat_entry("b", EngineType::Whisper, true, 2),
    ];
    assert_eq!(find_model(&cat, "b"), Some(1));
    assert_eq!(find_model(&cat, "zzz"), None);
}

#[test]
fn edit_distance_and_similarity() {
    let a: Vec<char> = "kitten".chars().collect();
    let b: Vec<char> = "sitting".chars().collect();
    assert_eq!(levenshtein(&a, &b), 3);
    let empty: Vec<char> = Vec::new();
    assert_eq!(levenshtein(&a, &empty), 6);
    assert_eq!(similarity(&a, &a), 100);
    let v1: Vec<char> = "Verys".chars().collect();
    let v2: Vec<char> = "Verus".chars().collect();
    assert_eq!(similarity(&v1, &v2), 80);
    assert_eq!(similarity(&empty, &empty), 100);
}

#[test]
fn custom_word_correction_replaces_close_tokens() {
    let words = vec!["Verus".to_string(), "Tokio".to_string()];
    assert_eq!(apply_custom_words("I love Verys", &words, 80), "I love Verus");
    assert_eq!(apply_custom_words("I love Verys", &words, 81), "I love Verys");
    // spacing survives untouched
    assert_eq!(apply_custom_words("a  b", &words, 200), "a  b");
    assert_eq!(apply_custom_words("", &words, 0), "");
    // already-corrected text stays fixed
    let once = apply_custom_words("tokyo rust", &words, 60);
    assert_eq!(once, "Tokio rust");
    assert_eq!(apply_custom_words(&once, &words, 60), once);
}

#[test]
fn timestamps_format_as_clock_time() {
    assert_eq!(format_timestamp(0), "00:00:00.000");
    assert_eq!(format_timestamp(3_723_004), "01:02:03.004");
    assert_eq!(format_timestamp(59_999), "00:00:59.999");
    assert_eq!(format_timestamp(360_000_000), "100:00:00.000");
}
