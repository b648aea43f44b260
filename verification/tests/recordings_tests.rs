use chrono::NaiveDate;
use gravador::recordings::{format_year, recording_file_name};
use gravador::recordings::{
    display_date, find_recording, format_recording_duration, recording_item, recording_item_with,
    saved_transcription_available, selection_status, RecordingRow,
};

fn row(id: i64, path: &str, created: &str, secs: i64, status: &str, text: Option<&str>, name: Option<&str>) -> RecordingRow {
    RecordingRow {
        id,
        file_path: path.to_string(),
        created_at: created.to_string(),
        duration_secs: secs,
        transcription_status: status.to_string(),
        transcription_text: text.map(|s| s.to_string()),
        display_name: name.map(|s| s.to_string()),
    }
}

#[test]
fn dates_are_shown_day_first() {
    assert_eq!(display_date("2024-03-05T14:07:09-03:00"), "05/03/2024 14:07");
    assert_eq!(display_date("2024-12-31T23:59:60Z"), "31/12/2024 23:59");
    assert_eq!(display_date("0001-01-01 00:00:00+00:00"), "01/01/0001 00:00");
    assert_eq!(display_date("ontem"), "ontem");
    assert_eq!(display_date("2024-02-30T10:00:00Z"), "2024-02-30T10:00:00Z");
}

#[test]
fn durations_are_minutes_and_seconds() {
    assert_eq!(format_recording_duration(0), "00:00");
    assert_eq!(format_recording_duration(125), "02:05");
    assert_eq!(format_recording_duration(3600), "60:00");
    assert_eq!(format_recording_duration(-5), format!("{:02}:{:02}", -5i64 / 60, -5i64 % 60));
    assert_eq!(format_recording_duration(-125), format!("{:02}:{:02}", -125i64 / 60, -125i64 % 60));
    assert_eq!(format_recording_duration(i64::MIN), format!("{:02}:{:02}", i64::MIN / 60, i64::MIN % 60));
}

#[test]
fn item_uses_given_name_else_file_name() {
    let named = row(3, "/r/reuniao_1.wav", "2024-01-02T03:04:05Z", 61, "done", Some("t"), Some("Diretoria"));
    let item = recording_item(&named);
    assert_eq!(item.id, 3);
    assert_eq!(item.name, "Diretoria");
    assert_eq!(item.date, "02/01/2024 03:04");
    assert_eq!(item.duration, "01:01");
    assert_eq!(item.status, "done");

    let unnamed = row(4, "/r/reuniao_2.wav", "x", 0, "none", None, None);
    assert_eq!(recording_item(&unnamed).name, "reuniao_2.wav");
    assert_eq!(recording_item_with(&unnamed, None).name, "/r/reuniao_2.wav");
    assert_eq!(recording_item_with(&unnamed, Some("f.wav".to_string())).name, "f.wav");
}

#[test]
fn item_id_is_truncated_to_i32() {
    let big = row(4_294_967_297, "a.wav", "", 0, "none", None, None);
    assert_eq!(recording_item(&big).id, 1);
}

#[test]
fn rows_are_found_by_id() {
    let rows = vec![row(5, "a", "", 0, "", None, None), row(9, "b", "", 0, "", None, None), row(9, "c", "", 0, "", None, None)];
    assert_eq!(find_recording(&rows, 9), Some(1));
    assert_eq!(find_recording(&rows, 5), Some(0));
    assert_eq!(find_recording(&rows, 1), None);
}

#[test]
fn saved_transcription_needs_done_and_text() {
    assert!(saved_transcription_available(&row(1, "a", "", 0, "done", Some("x"), None)));
    assert!(!saved_transcription_available(&row(1, "a", "", 0, "done", None, None)));
    assert!(!saved_transcription_available(&row(1, "a", "", 0, "none", Some("x"), None)));
    assert_eq!(selection_status(&row(1, "a", "", 0, "done", Some("x"), None)), "Transcricao anterior carregada");
    assert_eq!(selection_status(&row(1, "a", "", 0, "Done", Some("x"), None)), "");
}

#[test]
fn file_names_follow_the_timestamp() {
    assert_eq!(recording_file_name(2024, 3, 5, 9, 7, 1), "reuniao_2024-03-05_09-07-01.wav");
    assert_eq!(recording_file_name(999, 12, 31, 23, 59, 59), "reuniao_0999-12-31_23-59-59.wav");
    let now = NaiveDate::from_ymd_opt(2025, 11, 2).unwrap().and_hms_opt(4, 5, 6).unwrap();
    assert_eq!(
        recording_file_name(2025, 11, 2, 4, 5, 6),
        format!("reuniao_{}.wav", now.format("%Y-%m-%d_%H-%M-%S"))
    );
}

#[test]
fn years_are_written_as_chrono_does() {
    for y in [0, 7, 999, 1000, 2024, 9999, 10000, 123456, -1, -44, -12345] {
        let d = NaiveDate::from_ymd_opt(y, 1, 1).unwrap();
        assert_eq!(format_year(y), d.format("%Y").to_string(), "year {}", y);
    }
}
