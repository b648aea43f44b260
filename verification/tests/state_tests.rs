use gravador::config::AppConfig;
use gravador::recordings::RecordingRow;
use gravador::state::AppState;
use gravador::transcription::TranscriptionSegment;

fn cfg() -> AppConfig {
    AppConfig::from_stored(None, None, None, None, "/docs/rec".to_string(), "/cfg/models".to_string())
}

#[test]
fn defaults_when_nothing_stored() {
    let c = cfg();
    assert_eq!(c.engine, 0);
    assert_eq!(c.model_index, 2);
    assert_eq!(c.api_key, "");
    assert_eq!(c.output_dir, "/docs/rec");
    assert_eq!(c.models_dir, "/cfg/models");
    let bad = AppConfig::from_stored(Some("x".into()), Some("1.5".into()), Some("k".into()), Some("/o".into()), "/d".into(), "/m".into());
    assert_eq!(bad.engine, 0);
    assert_eq!(bad.model_index, 2);
    assert_eq!(bad.api_key, "k");
    assert_eq!(bad.output_dir, "/o");
}

#[test]
fn saved_settings_load_back() {
    let mut c = cfg();
    c.engine = 1;
    c.model_index = -3;
    c.api_key = "sk-abc".to_string();
    c.output_dir = "/tmp/gravações".to_string();
    let entries = c.stored_entries();
    let keys: Vec<&str> = entries.iter().map(|e| e.0.as_str()).collect();
    assert_eq!(keys, vec!["engine", "model_index", "api_key", "output_dir"]);
    let get = |k: &str| entries.iter().find(|e| e.0 == k).map(|e| e.1.clone());
    let back = AppConfig::from_stored(get("engine"), get("model_index"), get("api_key"), get("output_dir"), "/other".into(), c.models_dir.clone());
    assert_eq!(back.engine, 1);
    assert_eq!(back.model_index, -3);
    assert_eq!(back.api_key, "sk-abc");
    assert_eq!(back.output_dir, "/tmp/gravações");
}

fn seg(text: &str, start_ms: u64) -> TranscriptionSegment {
    TranscriptionSegment { text: text.to_string(), start_ms, end_ms: start_ms }
}

#[test]
fn transcription_is_remembered_for_copy_and_export() {
    let mut s = AppState::new(cfg());
    assert!(s.transcription_source().is_none());
    assert!(s.export_request().is_none());
    s.begin_recording("/docs/rec/reuniao.wav".to_string(), Some(7));
    assert_eq!(s.transcription_source().as_deref(), Some("/docs/rec/reuniao.wav"));
    let (id, text) = s.record_transcription(&vec![seg("Olá", 0), seg("pessoal", 1500)]);
    assert_eq!(id, Some(7));
    assert_eq!(text, "Olá pessoal");
    assert_eq!(s.text_to_copy().as_deref(), Some("Olá pessoal"));
    assert_eq!(s.export_request(), Some(("Olá pessoal".to_string(), "/docs/rec/reuniao.wav".to_string())));
    assert_eq!(s.last_transcription_segments[1].timestamp, "00:01");
    assert_eq!(s.search("PESS").len(), 1);
}

#[test]
fn external_file_has_no_history_row() {
    let mut s = AppState::new(cfg());
    s.begin_recording("a.wav".to_string(), Some(1));
    s.open_external_file("/x/b.mp3".to_string());
    assert_eq!(s.current_recording_id, None);
    let (id, _) = s.record_transcription(&vec![seg("x", 0)]);
    assert_eq!(id, None);
}

#[test]
fn selecting_a_recording_loads_its_text() {
    let mut s = AppState::new(cfg());
    let row = RecordingRow {
        id: 12,
        file_path: "/r/a.wav".to_string(),
        created_at: String::new(),
        duration_secs: 0,
        transcription_status: "done".to_string(),
        transcription_text: Some("Um. Dois!".to_string()),
        display_name: None,
    };
    let shown = s.select_recording(&row);
    assert_eq!(shown.len(), 2);
    assert_eq!(shown[1].text, "Dois");
    assert_eq!(s.current_recording_id, Some(12));
    assert_eq!(s.text_to_copy().as_deref(), Some("Um. Dois!"));
    let empty = RecordingRow { transcription_text: None, ..row };
    assert!(s.select_recording(&empty).is_empty());
    assert!(s.text_to_copy().is_none());
}

#[test]
fn update_address_and_settings() {
    let mut s = AppState::new(cfg());
    assert!(s.update_to_install().is_none());
    s.offer_update("https://x/setup.exe".to_string());
    assert_eq!(s.update_to_install().as_deref(), Some("https://x/setup.exe"));
    s.apply_settings(1, 4, "k".to_string(), "/new".to_string());
    assert_eq!(s.config.model_name(), "large");
    assert_eq!(s.config.models_dir, "/cfg/models");
    s.set_output_dir("/other".to_string());
    assert_eq!(s.config.output_dir, "/other");
    assert_eq!(s.config.api_key, "k");
}
