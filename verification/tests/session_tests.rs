use gravador::session::should_write_block;
use gravador::session::{
    countdown_message, countdown_step, delay_seconds, format_clock, shape_output, stored_duration_secs,
    transcription_done_message, whole_seconds, CountdownStep, PauseClock,
};

const SEC: u128 = 1_000_000_000;

#[test]
fn delays() {
    assert_eq!(delay_seconds(0), 0);
    assert_eq!(delay_seconds(1), 10);
    assert_eq!(delay_seconds(2), 30);
    assert_eq!(delay_seconds(3), 60);
    assert_eq!(delay_seconds(4), 0);
    assert_eq!(delay_seconds(-1), 0);
}

#[test]
fn countdown() {
    assert_eq!(countdown_step(3, true), CountdownStep::Announce(3));
    assert_eq!(countdown_step(1, false), CountdownStep::Cancel);
    assert_eq!(countdown_step(0, false), CountdownStep::Begin);
    assert_eq!(countdown_message(10), "Iniciando gravação em 10s...");
}

#[test]
fn clock_text() {
    assert_eq!(format_clock(0), "00:00:00");
    assert_eq!(format_clock(3661), "01:01:01");
    assert_eq!(format_clock(360_000), "100:00:00");
    assert_eq!(transcription_done_message(75), "Transcrição concluída em 00:01:15");
}

#[test]
fn pauses_are_left_out() {
    let mut c = PauseClock::new();
    assert_eq!(c.active(5 * SEC), 5 * SEC);
    c.observe(10 * SEC, true);
    assert_eq!(c.active(10 * SEC), 10 * SEC);
    assert_eq!(c.active(25 * SEC), 10 * SEC);
    c.observe(12 * SEC, true);
    assert_eq!(c.pause_started, Some(10 * SEC));
    c.observe(30 * SEC, false);
    assert_eq!(c.paused_total, 20 * SEC);
    assert_eq!(c.active(31 * SEC), 11 * SEC);
    c.observe(32 * SEC, false);
    assert_eq!(c.paused_total, 20 * SEC);
}

#[test]
fn stored_duration_is_whole_seconds() {
    assert_eq!(whole_seconds(2_999_999_999), 2);
    assert_eq!(stored_duration_secs(61 * SEC + 5), 61);
}

#[test]
fn stereo_duplicates_samples() {
    assert_eq!(shape_output(vec![1, 2, 3], 2), vec![1, 1, 2, 2, 3, 3]);
    assert_eq!(shape_output(vec![1, 2, 3], 1), vec![1, 2, 3]);
    assert_eq!(shape_output(vec![0.5f32, -0.25], 2), vec![0.5, 0.5, -0.25, -0.25]);
}

#[test]
fn blocks_are_written_only_when_recording_audio() {
    assert!(should_write_block(false, 160));
    assert!(!should_write_block(true, 160));
    assert!(!should_write_block(false, 0));
    assert!(!should_write_block(true, 0));
}
