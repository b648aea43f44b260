use gravador::transcription::{
    display_segments, exceeds_upload_limit, full_text, is_supported_audio_extension,
    language_or_default, plan_transcription, saved_text_segments, segments_from_cloud_text,
    whisper_segment, whisper_thread_count, threads_for_cpus, CloudEngine, CloudTextError,
    DisplaySegment, EnginePlan, LocalEngine, TranscriptionSegment, filter_segments,
    refusal_message, transcription_refusal, TranscribeRefusal,
};

fn seg(text: &str, start_ms: u64) -> TranscriptionSegment {
    TranscriptionSegment { text: text.to_string(), start_ms, end_ms: start_ms + 500 }
}

#[test]
fn cloud_reply_is_cut_into_sentences() {
    let segs = segments_from_cloud_text("  Bom dia. Vamos começar!  ").unwrap();
    let texts: Vec<&str> = segs.iter().map(|s| s.text.as_str()).collect();
    assert_eq!(texts, vec!["Bom dia", "Vamos começar"]);
    assert!(segs.iter().all(|s| s.start_ms == 0 && s.end_ms == 0));
}

#[test]
fn cloud_reply_without_sentences_is_one_segment() {
    let segs = segments_from_cloud_text(" ?!. ").unwrap();
    assert_eq!(segs.len(), 1);
    assert_eq!(segs[0].text, "?!.");
}

#[test]
fn empty_cloud_reply_is_an_error() {
    assert_eq!(segments_from_cloud_text(" \n\t ").unwrap_err(), CloudTextError::EmptyTranscription);
    assert_eq!(segments_from_cloud_text("").unwrap_err(), CloudTextError::EmptyTranscription);
}

#[test]
fn upload_limit_is_25_mib() {
    assert!(!exceeds_upload_limit(25 * 1024 * 1024));
    assert!(exceeds_upload_limit(25 * 1024 * 1024 + 1));
    assert!(!exceeds_upload_limit(0));
}

#[test]
fn language_defaults_to_portuguese() {
    assert_eq!(language_or_default(None), "pt");
    assert_eq!(language_or_default(Some("en")), "en");
}

#[test]
fn whisper_segments_are_trimmed_and_in_ms() {
    let s = whisper_segment("  olá mundo ", 150, 420);
    assert_eq!(s.text, "olá mundo");
    assert_eq!(s.start_ms, 1500);
    assert_eq!(s.end_ms, 4200);
}

#[test]
fn thread_count_leaves_one_cpu() {
    assert_eq!(threads_for_cpus(8), 7);
    assert_eq!(threads_for_cpus(2), 1);
    assert_eq!(threads_for_cpus(1), 1);
    let (cpus, n) = whisper_thread_count();
    let n = n.unwrap();
    assert!(n >= 1);
    assert_eq!(cpus, num_cpus::get());
    assert_eq!(n, std::cmp::max(num_cpus::get() as i32 - 1, 1));
}

#[test]
fn full_text_joins_with_spaces() {
    assert_eq!(full_text(&vec![seg("a", 0), seg("b c", 10), seg("d", 20)]), "a b c d");
    assert_eq!(full_text(&vec![]), "");
    assert_eq!(full_text(&vec![seg("só", 0)]), "só");
}

#[test]
fn display_timestamps_are_minutes_and_seconds() {
    let shown = display_segments(&vec![seg("x", 0), seg("y", 61_999), seg("z", 6_000_000)]);
    let stamps: Vec<&str> = shown.iter().map(|s| s.timestamp.as_str()).collect();
    assert_eq!(stamps, vec!["00:00", "01:01", "100:00"]);
    assert_eq!(shown[1].text, "y");
}

#[test]
fn saved_text_is_shown_without_times() {
    let shown = saved_text_segments("Primeira frase. Segunda!");
    assert_eq!(shown.len(), 2);
    assert_eq!(shown[0].timestamp, "--:--");
    assert_eq!(shown[0].text, "Primeira frase");
    assert_eq!(shown[1].text, "Segunda");
}

#[test]
fn search_ignores_case() {
    let segs = vec![
        DisplaySegment { timestamp: "00:01".to_string(), text: "Reunião de Orçamento".to_string() },
        DisplaySegment { timestamp: "00:02".to_string(), text: "outro assunto".to_string() },
        DisplaySegment { timestamp: "00:03".to_string(), text: "ORÇAMENTO aprovado".to_string() },
    ];
    let kept = filter_segments(&segs, "orçamento");
    let stamps: Vec<&str> = kept.iter().map(|s| s.timestamp.as_str()).collect();
    assert_eq!(stamps, vec!["00:01", "00:03"]);
    assert_eq!(filter_segments(&segs, "").len(), 3);
    assert_eq!(filter_segments(&segs, "nada").len(), 0);
}

#[test]
fn supported_extensions() {
    for e in ["wav", "WAV", "Mp3", "m4a", "ogg", "FLAC"] {
        assert!(is_supported_audio_extension(e), "{}", e);
    }
    for e in ["txt", "", "wave", "mp4"] {
        assert!(!is_supported_audio_extension(e), "{}", e);
    }
}

#[test]
fn refusals_come_in_order() {
    assert_eq!(transcription_refusal(false, false, Some("txt")), Some(TranscribeRefusal::NoRecording));
    assert_eq!(transcription_refusal(true, false, Some("wav")), Some(TranscribeRefusal::FileMissing));
    assert_eq!(transcription_refusal(true, true, Some("txt")), Some(TranscribeRefusal::NotAudio));
    assert_eq!(transcription_refusal(true, true, Some("OGG")), None);
    assert_eq!(transcription_refusal(true, true, None), None);
    assert_eq!(refusal_message(TranscribeRefusal::NoRecording), "Nenhuma gravação para transcrever");
    assert_eq!(refusal_message(TranscribeRefusal::FileMissing), "Arquivo de áudio não encontrado");
    assert_eq!(refusal_message(TranscribeRefusal::NotAudio), "Arquivo inválido. Use arquivos de áudio (WAV, MP3, etc)");
}

#[test]
fn engine_choice() {
    assert_eq!(plan_transcription(0, "sk-1"), EnginePlan::Cloud);
    assert_eq!(plan_transcription(0, ""), EnginePlan::MissingApiKey);
    assert_eq!(plan_transcription(1, ""), EnginePlan::Local);
    assert_eq!(plan_transcription(7, "k"), EnginePlan::Local);
}

#[test]
fn engines_keep_their_settings() {
    assert_eq!(CloudEngine::new("k".to_string()).api_key, "k");
    assert_eq!(LocalEngine::new("/m/ggml-small.bin".to_string()).model_path, "/m/ggml-small.bin");
}
