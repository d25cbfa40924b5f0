use transcription_core::manager::TranscriptionManager;
use transcription_core::types::{
    EngineType, ModelInfo, ModelUnloadTimeout, Settings, TranscribeError,
};

fn model(id: &str, name: &str, engine: EngineType, downloaded: bool, score: u32) -> ModelInfo {
    ModelInfo {
        id: id.to_string(),
        name: name.to_string(),
        engine_type: engine,
        is_downloaded: downloaded,
        path: format!("/models/{}", id),
        accuracy_score: score,
    }
}

fn settings(selected: &str) -> Settings {
    Settings {
        selected_model: selected.to_string(),
        selected_language: "en".to_string(),
        translate_to_english: false,
        model_unload_timeout: ModelUnloadTimeout::Never,
        custom_words: Vec::new(),
        word_correction_threshold: 80,
    }
}

fn catalog() -> Vec<ModelInfo> {
    vec![
        model("base", "Base", EngineType::Whisper, true, 50),
        model("pk", "Parakeet", EngineType::Parakeet, true, 70),
        model("ghost", "Ghostly", EngineType::Whisper, false, 90),
    ]
}

#[test]
fn starts_unloaded() {
    let m = TranscriptionManager::new(catalog(), settings("base"), 1000);
    assert!(!m.is_model_loaded());
    assert!(m.get_current_model().is_none());
    let st = m.load_status();
    assert!(!st.is_loaded);
    assert!(st.current_model.is_none());
}

#[test]
fn load_model_success_emits_events() {
    let mut m = TranscriptionManager::new(catalog(), settings("base"), 0);
    let req = m.load_model("base").expect("begin load");
    assert_eq!(req.model_id, "base");
    assert_eq!(req.model_name, "Base");
    assert!(matches!(req.engine_type, EngineType::Whisper));
    assert_eq!(req.path, "/models/base");
    assert!(!m.is_model_loaded());
    m.complete_load(&req, Ok(())).expect("complete");
    assert!(m.is_model_loaded());
    assert_eq!(m.get_current_model().as_deref(), Some("base"));
    let events = m.take_events();
    assert_eq!(events.len(), 2);
    assert_eq!(events[0].event_type, "loading_started");
    assert_eq!(events[0].model_id.as_deref(), Some("base"));
    assert_eq!(events[1].event_type, "loading_completed");
    assert_eq!(events[1].model_name.as_deref(), Some("Base"));
    assert!(events[1].error.is_none());
    assert!(m.take_events().is_empty());
}

#[test]
fn load_model_not_found() {
    let mut m = TranscriptionManager::new(catalog(), settings("base"), 0);
    let r = m.load_model("missing");
    assert_eq!(r.unwrap_err(), TranscribeError::ModelNotFound);
    let events = m.take_events();
    assert_eq!(events.len(), 2);
    assert_eq!(events[0].event_type, "loading_started");
    assert_eq!(events[1].event_type, "loading_failed");
    assert!(events[1].error.is_some());
}

#[test]
fn load_model_not_downloaded() {
    let mut m = TranscriptionManager::new(catalog(), settings("base"), 0);
    let r = m.load_model("ghost");
    assert_eq!(r.unwrap_err(), TranscribeError::ModelNotDownloaded);
    let events = m.take_events();
    assert_eq!(events.len(), 2);
    assert_eq!(events[1].event_type, "loading_failed");
    assert_eq!(events[1].model_name.as_deref(), Some("Ghostly"));
}

#[test]
fn backend_load_failure_keeps_slot() {
    let mut m = TranscriptionManager::new(catalog(), settings("base"), 0);
    let req = m.load_model("base").unwrap();
    let r = m.complete_load(&req, Err("out of memory".to_string()));
    match r.unwrap_err() {
        TranscribeError::BackendLoadError(msg) => assert_eq!(msg, "out of memory"),
        other => panic!("unexpected error: {:?}", other),
    }
    assert!(!m.is_model_loaded());
    let events = m.take_events();
    assert_eq!(events.last().unwrap().event_type, "loading_failed");
}

#[test]
fn unload_when_unloaded_is_noop_ok() {
    let mut m = TranscriptionManager::new(catalog(), settings("base"), 0);
    assert!(m.unload_model().is_ok());
    assert!(!m.is_model_loaded());
    assert!(m.get_current_model().is_none());
    let events = m.take_events();
    assert_eq!(events.len(), 1);
    assert_eq!(events[0].event_type, "unloaded");
}

#[test]
fn unload_then_load_sees_no_stale_engine() {
    let mut m = TranscriptionManager::new(catalog(), settings("base"), 0);
    let req = m.load_model("base").unwrap();
    m.complete_load(&req, Ok(())).unwrap();
    assert!(m.is_model_loaded());
    m.unload_model().unwrap();
    assert!(!m.is_model_loaded());
    assert!(m.get_current_model().is_none());
    let req2 = m.load_model("pk").unwrap();
    assert!(!m.is_model_loaded());
    m.complete_load(&req2, Ok(())).unwrap();
    assert_eq!(m.get_current_model().as_deref(), Some("pk"));
}

#[test]
fn initiate_model_load_is_idempotent() {
    let mut m = TranscriptionManager::new(catalog(), settings("base"), 0);
    let first = m.initiate_model_load();
    assert!(first.is_some());
    let second = m.initiate_model_load();
    assert!(second.is_none());
    let req = first.unwrap();
    m.complete_load(&req, Ok(())).unwrap();
    assert!(m.is_model_loaded());
    assert!(m.initiate_model_load().is_none());
}

#[test]
fn initiate_model_load_clears_flag_on_failure() {
    let mut m = TranscriptionManager::new(catalog(), settings("missing"), 0);
    assert!(m.initiate_model_load().is_none());
    assert!(m.initiate_model_load().is_none());
    assert!(!m.is_model_loaded());
}

#[test]
fn idle_tick_unloads_after_limit() {
    let mut s = settings("base");
    s.model_unload_timeout = ModelUnloadTimeout::AfterSeconds(30);
    let mut m = TranscriptionManager::new(catalog(), s, 0);
    let req = m.load_model("base").unwrap();
    m.complete_load(&req, Ok(())).unwrap();
    m.take_events();
    assert!(!m.idle_tick(30_000));
    assert!(m.is_model_loaded());
    assert!(m.idle_tick(30_001));
    assert!(!m.is_model_loaded());
    let events = m.take_events();
    assert_eq!(events.len(), 1);
    assert_eq!(events[0].event_type, "unloaded");
}

#[test]
fn idle_tick_ignores_immediate_and_never() {
    for mode in [ModelUnloadTimeout::Immediately, ModelUnloadTimeout::Never] {
        let mut s = settings("base");
        s.model_unload_timeout = mode;
        let mut m = TranscriptionManager::new(catalog(), s, 0);
        let req = m.load_model("base").unwrap();
        m.complete_load(&req, Ok(())).unwrap();
        assert!(!m.idle_tick(1_000_000_000));
        assert!(m.is_model_loaded());
    }
}

#[test]
fn cancel_without_token_is_noop() {
    let mut m = TranscriptionManager::new(catalog(), settings("base"), 0);
    m.cancel_current_transcription();
    assert!(!m.cancel_requested);
}

#[test]
fn maybe_unload_immediately_only_under_immediate() {
    let mut s = settings("base");
    s.model_unload_timeout = ModelUnloadTimeout::Immediately;
    let mut m = TranscriptionManager::new(catalog(), s, 0);
    let req = m.load_model("base").unwrap();
    m.complete_load(&req, Ok(())).unwrap();
    m.maybe_unload_immediately();
    assert!(!m.is_model_loaded());

    let mut m2 = TranscriptionManager::new(catalog(), settings("base"), 0);
    let req2 = m2.load_model("base").unwrap();
    m2.complete_load(&req2, Ok(())).unwrap();
    m2.maybe_unload_immediately();
    assert!(m2.is_model_loaded());
}

#[test]
fn ensure_translation_switch_picks_turbo() {
    let cat = vec![
        model("small", "Small", EngineType::Whisper, true, 60),
        model("medium-turbo", "Medium Turbo", EngineType::Whisper, true, 40),
        model("pk", "Parakeet", EngineType::Parakeet, true, 70),
    ];
    let mut m = TranscriptionManager::new(cat, settings("pk"), 0);
    let req = m.load_model("pk").unwrap();
    m.complete_load(&req, Ok(())).unwrap();
    let switch = m.ensure_translation_capable_engine().expect("a candidate exists");
    assert_eq!(switch.model_id, "medium-turbo");
    m.complete_load(&switch, Ok(())).unwrap();
    assert_eq!(m.get_current_model().as_deref(), Some("medium-turbo"));
}

#[test]
fn ensure_translation_noop_without_candidate_or_parakeet() {
    let cat = vec![model("pk", "Parakeet", EngineType::Parakeet, true, 70)];
    let mut m = TranscriptionManager::new(cat, settings("pk"), 0);
    let req = m.load_model("pk").unwrap();
    m.complete_load(&req, Ok(())).unwrap();
    assert!(m.ensure_translation_capable_engine().is_none());
    assert_eq!(m.get_current_model().as_deref(), Some("pk"));

    let mut m2 = TranscriptionManager::new(catalog(), settings("base"), 0);
    let req2 = m2.load_model("base").unwrap();
    m2.complete_load(&req2, Ok(())).unwrap();
    assert!(m2.ensure_translation_capable_engine().is_none());
}
