use transcription_core::manager::TranscriptionManager;
use transcription_core::pipeline::{NextStep, TranscribeStart, TranscriptionSession};
use transcription_core::types::{
    EngineOutput, EngineSegment, EngineType, FileTranscriptionOptions, ModelInfo,
    ModelUnloadTimeout, Settings, TimestampGranularity, TranscribeError,
};

fn mk_model(id: &str, name: &str, engine: EngineType, downloaded: bool, score: u32) -> ModelInfo {
    ModelInfo {
        id: id.to_string(),
        name: name.to_string(),
        engine_type: engine,
        is_downloaded: downloaded,
        path: format!("/models/{}", id),
        accuracy_score: score,
    }
}

fn mk_settings(selected: &str) -> Settings {
    Settings {
        selected_model: selected.to_string(),
        selected_language: "en".to_string(),
        translate_to_english: false,
        model_unload_timeout: ModelUnloadTimeout::Never,
        custom_words: Vec::new(),
        word_correction_threshold: 80,
    }
}

fn loaded_whisper(settings: Settings) -> TranscriptionManager {
    let cat = vec![mk_model("base", "Base", EngineType::Whisper, true, 50)];
    let mut m = TranscriptionManager::new(cat, settings, 0);
    let req = m.load_model("base").unwrap();
    m.complete_load(&req, Ok(())).unwrap();
    m.take_events();
    m
}

fn seg(start: u64, end: u64, text: &str) -> EngineSegment {
    EngineSegment { start, end, text: text.to_string() }
}

fn output(segments: Vec<EngineSegment>, text: &str) -> EngineOutput {
    EngineOutput { text: text.to_string(), segments: Some(segments) }
}

fn open_session(m: &mut TranscriptionManager, len: usize) -> TranscriptionSession {
    match m.transcribe(len, None, 0).unwrap() {
        TranscribeStart::Session(s) => s,
        TranscribeStart::Done(_, _) => panic!("expected a session"),
    }
}

#[test]
fn empty_input_returns_empty_and_no_progress() {
    let mut m = loaded_whisper(mk_settings("base"));
    match m.transcribe(0, None, 5).unwrap() {
        TranscribeStart::Done(text, segs) => {
            assert_eq!(text, "");
            assert!(segs.is_empty());
        },
        TranscribeStart::Session(_) => panic!("empty input must finish at once"),
    }
    assert!(m.is_model_loaded());
}

#[test]
fn empty_input_triggers_immediate_unload() {
    let mut s = mk_settings("base");
    s.model_unload_timeout = ModelUnloadTimeout::Immediately;
    let mut m = loaded_whisper(s);
    match m.transcribe(0, None, 5).unwrap() {
        TranscribeStart::Done(_, _) => {},
        _ => panic!(),
    }
    assert!(!m.is_model_loaded());
}

#[test]
fn transcribe_without_engine_fails() {
    let cat = vec![mk_model("base", "Base", EngineType::Whisper, true, 50)];
    let mut m = TranscriptionManager::new(cat, mk_settings("base"), 0);
    let r = m.transcribe(16000, None, 0);
    assert_eq!(r.unwrap_err(), TranscribeError::ModelNotLoaded);
}

#[test]
fn twelve_seconds_runs_three_chunks_with_monotonic_times() {
    let mut m = loaded_whisper(mk_settings("base"));
    let mut s = open_session(&mut m, 192_000);
    let mut progress_count = 0;
    let mut runs = 0;
    loop {
        match m.next_chunk(&mut s) {
            NextStep::Finished => break,
            NextStep::Run(cr) => {
                runs += 1;
                assert_eq!(cr.params.language.as_deref(), Some("en"));
                assert!(!cr.params.translate);
                assert_eq!(cr.params.timestamp_granularity, TimestampGranularity::Segment);
                let dur = (cr.len / 16) as u64;
                let out = output(vec![seg(0, dur / 2, "one"), seg(dur / 2, dur, "two")], "");
                if s.push_chunk_result(out).is_some() {
                    progress_count += 1;
                }
            },
            other => panic!("unexpected step: {:?} runs so far {}", step_name(&other), runs),
        }
    }
    assert_eq!(runs, 3);
    assert!(progress_count >= 2 && progress_count <= 3);
    let (text, segs) = m.finish_transcription(&s);
    assert_eq!(segs.len(), 6);
    assert_eq!(segs.last().unwrap().end, 12_000);
    for w in segs.windows(2) {
        assert!(w[0].start <= w[0].end);
        assert!(w[0].end <= w[1].start);
    }
    assert_eq!(text, "one two one two one two");
}

fn step_name(s: &NextStep) -> &'static str {
    match s {
        NextStep::Finished => "finished",
        NextStep::Switch(_) => "switch",
        NextStep::Run(_) => "run",
        NextStep::Abort(_) => "abort",
    }
}

#[test]
fn exact_multiple_of_chunk_size_runs_exactly_n_chunks() {
    let mut m = loaded_whisper(mk_settings("base"));
    let mut s = open_session(&mut m, 160_000);
    let mut runs = 0;
    loop {
        match m.next_chunk(&mut s) {
            NextStep::Finished => break,
            NextStep::Run(cr) => {
                runs += 1;
                assert_eq!(cr.len, 80_000);
                s.push_chunk_result(output(vec![], ""));
            },
            _ => panic!(),
        }
    }
    assert_eq!(runs, 2);
}

#[test]
fn short_audio_gives_at_most_one_progress_emission() {
    let mut m = loaded_whisper(mk_settings("base"));
    let mut s = open_session(&mut m, 50_000);
    let mut emissions = 0;
    let mut runs = 0;
    loop {
        match m.next_chunk(&mut s) {
            NextStep::Finished => break,
            NextStep::Run(cr) => {
                runs += 1;
                assert_eq!(cr.len, 50_000);
                let out = output(vec![seg(0, 3000, "short")], "");
                if s.push_chunk_result(out).is_some() {
                    emissions += 1;
                }
            },
            _ => panic!(),
        }
    }
    assert_eq!(runs, 1);
    assert!(emissions <= 1);
}

#[test]
fn chunk_offsets_accumulate_by_actual_sample_count() {
    let mut m = loaded_whisper(mk_settings("base"));
    let mut s = open_session(&mut m, 192_000);
    // first chunk: 80000 samples, shift 0
    let p1 = s.push_chunk_result(output(vec![seg(0, 5000, "a")], "")).unwrap();
    assert_eq!(p1.segments[0].start, 0);
    assert_eq!(p1.segments[0].end, 5000);
    // second chunk shifted by 5000 ms
    let p2 = s.push_chunk_result(output(vec![seg(100, 4000, "b")], "")).unwrap();
    assert_eq!(p2.segments[0].start, 5100);
    assert_eq!(p2.segments[0].end, 9000);
    // final chunk of 32000 samples shifted by 10000 ms
    let p3 = s.push_chunk_result(output(vec![seg(0, 2000, "c")], "")).unwrap();
    assert_eq!(p3.segments[0].start, 10_000);
    assert_eq!(p3.segments[0].end, 12_000);
}

#[test]
fn language_normalization_reaches_backend_params() {
    let mut m = loaded_whisper(mk_settings("base"));
    let opts = FileTranscriptionOptions { language: Some("zh-Hant".to_string()), translate: false };
    let mut s = match m.transcribe(16_000, Some(opts), 0).unwrap() {
        TranscribeStart::Session(s) => s,
        _ => panic!(),
    };
    match m.next_chunk(&mut s) {
        NextStep::Run(cr) => {
            assert_eq!(cr.params.language.as_deref(), Some("zh"));
        },
        _ => panic!(),
    }
}

#[test]
fn auto_language_maps_to_none() {
    let mut m = loaded_whisper(mk_settings("base"));
    let opts = FileTranscriptionOptions { language: Some("auto".to_string()), translate: false };
    let mut s = match m.transcribe(16_000, Some(opts), 0).unwrap() {
        TranscribeStart::Session(s) => s,
        _ => panic!(),
    };
    match m.next_chunk(&mut s) {
        NextStep::Run(cr) => assert!(cr.params.language.is_none()),
        _ => panic!(),
    }
}

#[test]
fn previous_chunk_text_becomes_initial_prompt() {
    let mut m = loaded_whisper(mk_settings("base"));
    let mut s = open_session(&mut m, 160_000);
    match m.next_chunk(&mut s) {
        NextStep::Run(cr) => assert!(cr.params.initial_prompt.is_none()),
        _ => panic!(),
    }
    s.push_chunk_result(output(vec![seg(0, 1000, "hello"), seg(1000, 2000, "there")], ""));
    match m.next_chunk(&mut s) {
        NextStep::Run(cr) => {
            assert_eq!(cr.params.initial_prompt.as_deref(), Some("hello there"));
        },
        _ => panic!(),
    }
}

#[test]
fn capability_switch_runs_before_first_chunk() {
    let cat = vec![
        mk_model("small", "Small", EngineType::Whisper, true, 60),
        mk_model("medium-turbo", "Medium Turbo", EngineType::Whisper, true, 40),
        mk_model("pk", "Parakeet", EngineType::Parakeet, true, 70),
    ];
    let mut m = TranscriptionManager::new(cat, mk_settings("pk"), 0);
    let req = m.load_model("pk").unwrap();
    m.complete_load(&req, Ok(())).unwrap();
    let opts = FileTranscriptionOptions { language: None, translate: true };
    let mut s = match m.transcribe(80_000, Some(opts), 0).unwrap() {
        TranscribeStart::Session(s) => s,
        _ => panic!(),
    };
    match m.next_chunk(&mut s) {
        NextStep::Switch(req) => {
            assert_eq!(req.model_id, "medium-turbo");
            m.complete_load(&req, Ok(())).unwrap();
        },
        _ => panic!("expected a switch"),
    }
    match m.next_chunk(&mut s) {
        NextStep::Run(cr) => assert!(cr.params.translate),
        _ => panic!("expected to run after the switch"),
    }
    assert_eq!(m.get_current_model().as_deref(), Some("medium-turbo"));
}

#[test]
fn failed_switch_continues_on_current_engine() {
    let cat = vec![
        mk_model("small", "Small", EngineType::Whisper, true, 60),
        mk_model("pk", "Parakeet", EngineType::Parakeet, true, 70),
    ];
    let mut m = TranscriptionManager::new(cat, mk_settings("pk"), 0);
    let req = m.load_model("pk").unwrap();
    m.complete_load(&req, Ok(())).unwrap();
    let opts = FileTranscriptionOptions { language: None, translate: true };
    let mut s = match m.transcribe(80_000, Some(opts), 0).unwrap() {
        TranscribeStart::Session(s) => s,
        _ => panic!(),
    };
    match m.next_chunk(&mut s) {
        NextStep::Switch(req) => {
            // the backend load fails; the previous engine stays usable
            assert!(m.complete_load(&req, Err("no memory".to_string())).is_err());
        },
        _ => panic!(),
    }
    match m.next_chunk(&mut s) {
        NextStep::Run(_) => {},
        _ => panic!("expected to keep transcribing on the old engine"),
    }
    assert_eq!(m.get_current_model().as_deref(), Some("pk"));
}

#[test]
fn cancellation_between_chunks_keeps_partial_result() {
    let mut m = loaded_whisper(mk_settings("base"));
    let mut s = open_session(&mut m, 480_000);
    let mut progress = 0;
    loop {
        match m.next_chunk(&mut s) {
            NextStep::Finished => break,
            NextStep::Run(_) => {
                let out = output(vec![seg(0, 1000, "x")], "");
                if s.push_chunk_result(out).is_some() {
                    progress += 1;
                }
                if progress == 2 {
                    m.cancel_current_transcription();
                }
            },
            _ => panic!(),
        }
    }
    assert!(s.was_cancelled);
    assert_eq!(progress, 2);
    let (_, segs) = m.finish_transcription(&s);
    assert_eq!(segs.len(), 2);
}

#[test]
fn immediate_unload_after_finish() {
    let mut st = mk_settings("base");
    st.model_unload_timeout = ModelUnloadTimeout::Immediately;
    let mut m = loaded_whisper(st);
    let mut s = open_session(&mut m, 16_000);
    loop {
        match m.next_chunk(&mut s) {
            NextStep::Finished => break,
            NextStep::Run(_) => {
                s.push_chunk_result(output(vec![seg(0, 500, "hi")], ""));
            },
            _ => panic!(),
        }
    }
    assert!(m.is_model_loaded());
    let _ = m.finish_transcription(&s);
    assert!(!m.is_model_loaded());
}

#[test]
fn chunk_without_segments_yields_synthetic_progress_segment() {
    let mut m = loaded_whisper(mk_settings("base"));
    let mut s = open_session(&mut m, 80_000);
    let p = s.push_chunk_result(output(vec![], "  raw words  ")).unwrap();
    assert_eq!(p.segments.len(), 1);
    assert_eq!(p.segments[0].start, 0);
    assert_eq!(p.segments[0].end, 5000);
    assert_eq!(p.segments[0].text, "raw words");
    // the synthetic segment reaches progress listeners only
    let (text, segs) = m.finish_transcription(&s);
    assert!(segs.is_empty());
    assert_eq!(text, "");
}

#[test]
fn blank_text_chunk_emits_nothing() {
    let mut m = loaded_whisper(mk_settings("base"));
    let mut s = open_session(&mut m, 80_000);
    assert!(s.push_chunk_result(output(vec![], "   ")).is_none());
}

#[test]
fn custom_words_correct_segment_texts() {
    let mut st = mk_settings("base");
    st.custom_words = vec!["Verus".to_string()];
    st.word_correction_threshold = 80;
    let mut m = loaded_whisper(st);
    let mut s = open_session(&mut m, 80_000);
    let p = s.push_chunk_result(output(vec![seg(0, 1000, "hello Verys")], "")).unwrap();
    assert_eq!(p.segments[0].text, "hello Verus");
    let (text, segs) = m.finish_transcription(&s);
    assert_eq!(segs[0].text, "hello Verus");
    assert_eq!(text, "hello Verus");
}

#[test]
fn backend_failure_aborts_with_inference_error() {
    let mut m = loaded_whisper(mk_settings("base"));
    let mut s = open_session(&mut m, 160_000);
    match m.next_chunk(&mut s) {
        NextStep::Run(_) => {},
        _ => panic!(),
    }
    let e = s.fail_inference("Whisper transcription failed: boom".to_string());
    match &e {
        TranscribeError::InferenceError(msg) => {
            assert_eq!(msg, "Whisper transcription failed: boom");
        },
        other => panic!("unexpected error: {:?}", other),
    }
    assert_eq!(e.message(), "Whisper transcription failed: boom");
    assert!(matches!(m.next_chunk(&mut s), NextStep::Finished));
}

#[test]
fn errors_render_as_strings() {
    assert_eq!(TranscribeError::ModelNotFound.message(), "Model not found");
    assert_eq!(TranscribeError::ModelNotDownloaded.message(), "Model not downloaded");
    assert_eq!(
        TranscribeError::ModelNotLoaded.message(),
        "Model is not loaded for transcription."
    );
    assert_eq!(TranscribeError::BackendLoadError("why".to_string()).message(), "why");
    assert_eq!(TranscribeError::DecodeError.message(), "Audio decoding failed");
    assert_eq!(TranscribeError::UnsupportedFormat.message(), "Unsupported audio format");
    assert_eq!(TranscribeError::IoError.message(), "I/O error");
}
