//! The decisions of a recording session: the start delay and its
//! countdown, the clock that leaves out paused time, how times are shown,
//! and the shape of the audio handed to the file.
use vstd::prelude::*;

use crate::numbers::{decimal, format_u64, format_u64_padded, zero_pad};
use crate::strings::push_char;
use vstd::string::StringExecFns;

verus! {

/// The format of one capture stream.
pub struct CaptureConfig {
    pub sample_rate: u32,
    pub channels: u16,
}

/// Recordings are written at 16 kHz, the rate whisper works at.
pub const RECORDING_SAMPLE_RATE: u32 = 16000;

/// Recordings are written in mono.
pub const RECORDING_CHANNELS: u16 = 1;

/// Whether a mixed block goes to the file: only while not paused, and
/// only a block that holds samples.
pub fn should_write_block(paused: bool, samples: usize) -> (w: bool)
    ensures
        w == (!paused && samples > 0),
{
    !paused && samples > 0
}

/// The seconds to wait before recording for a choice of delay: 10, 30 or
/// 60 seconds for choices 1, 2 and 3, none otherwise.
pub fn delay_seconds(delay_index: i32) -> (secs: u64)
    ensures
        secs == (if delay_index == 1 {
            10u64
        } else if delay_index == 2 {
            30u64
        } else if delay_index == 3 {
            60u64
        } else {
            0u64
        }),
{
    match delay_index {
        1 => 10,
        2 => 30,
        3 => 60,
        _ => 0,
    }
}

/// What the countdown before a recording does with `remaining` seconds
/// left.
#[derive(Debug, Clone, Copy, PartialEq, Eq)]
pub enum CountdownStep {
    /// The recording was stopped during the countdown.
    Cancel,
    /// Show the seconds left, wait one second, count down.
    Announce(u64),
    /// The countdown is over: start capturing.
    Begin,
}

/// The countdown goes from the delay down to one second, checking before
/// each second that the recording was not stopped; at zero it begins.
pub fn countdown_step(remaining: u64, still_recording: bool) -> (step: CountdownStep)
    ensures
        step == (if remaining == 0 {
            CountdownStep::Begin
        } else if !still_recording {
            CountdownStep::Cancel
        } else {
            CountdownStep::Announce(remaining)
        }),
{
    if remaining == 0 {
        CountdownStep::Begin
    } else if !still_recording {
        CountdownStep::Cancel
    } else {
        CountdownStep::Announce(remaining)
    }
}

/// The status line during the countdown.
pub fn countdown_message(remaining: u64) -> (out: String)
    ensures
        out@ == "Iniciando gravação em "@ + decimal(remaining as nat) + "s..."@,
{
    let mut s = String::from_str("Iniciando gravação em ");
    s.append(format_u64(remaining).as_str());
    s.append("s...");
    s
}

/// The longest `std::time::Duration`, in nanoseconds.
pub open spec fn max_duration_nanos() -> int {
    u64::MAX * 1_000_000_000 + 999_999_999
}

pub open spec fn sat_sub(a: int, b: int) -> int {
    if a >= b {
        a - b
    } else {
        0
    }
}

/// The recording clock, in nanoseconds since the recording began: the
/// paused time so far, and when the pause under way (if any) began.
pub struct PauseClock {
    pub paused_total: u128,
    pub pause_started: Option<u128>,
}

/// The time shown at `now`: the time since the start, less the paused
/// time, the pause under way included, never below zero.
pub open spec fn active_time(clock: PauseClock, now: int) -> int {
    match clock.pause_started {
        Some(ps) => sat_sub(now, clock.paused_total + sat_sub(now, ps as int)),
        None => sat_sub(now, clock.paused_total as int),
    }
}

/// The paused time once the pause under way (if any) is counted up to `now`.
pub open spec fn paused_with_current(clock: PauseClock, now: int) -> int {
    match clock.pause_started {
        Some(ps) => clock.paused_total + sat_sub(now, ps as int),
        None => clock.paused_total as int,
    }
}

impl PauseClock {
    /// A clock with nothing paused.
    pub fn new() -> (c: PauseClock)
        ensures
            c.paused_total == 0,
            c.pause_started is None,
    {
        PauseClock { paused_total: 0, pause_started: None }
    }

    /// Records the pause state seen at `now`: a pause begins where none was
    /// under way; a pause under way ends, and its length joins the total,
    /// when the recording is no longer paused.
    pub fn observe(&mut self, now: u128, paused: bool)
        requires
            !paused ==> paused_with_current(*old(self), now as int) <= max_duration_nanos(),
        ensures
            paused ==> final(self).paused_total == old(self).paused_total && final(self).pause_started
                == (match old(self).pause_started {
                Some(ps) => Some(ps),
                None => Some(now),
            }),
            !paused ==> final(self).pause_started is None && final(self).paused_total
                == paused_with_current(*old(self), now as int),
    {
        if paused {
            if self.pause_started.is_none() {
                self.pause_started = Some(now);
            }
        } else {
            match self.pause_started {
                Some(ps) => {
                    let len: u128 = if now >= ps { now - ps } else { 0 };
                    self.paused_total = self.paused_total + len;
                    self.pause_started = None;
                },
                None => {},
            }
        }
    }

    /// The time to show at `now` (see `active_time`).
    pub fn active(&self, now: u128) -> (t: u128)
        requires
            paused_with_current(*self, now as int) <= max_duration_nanos(),
        ensures
            t == active_time(*self, now as int),
    {
        let paused: u128 = match self.pause_started {
            Some(ps) => self.paused_total + (if now >= ps { now - ps } else { 0 }),
            None => self.paused_total,
        };
        if now >= paused { now - paused } else { 0 }
    }
}

/// The shown time never runs ahead of the time since the start.
pub proof fn law_active_time_bounded(clock: PauseClock, now: int)
    requires
        now >= 0,
    ensures
        0 <= active_time(clock, now) <= now,
{
}

/// With nothing ever paused, the shown time is the time since the start.
pub proof fn law_no_pause_shows_wall_time(now: int)
    requires
        now >= 0,
    ensures
        active_time(PauseClock { paused_total: 0, pause_started: None }, now) == now,
{
}

/// While a pause is under way the shown time stands still: at any two
/// moments after the pause began it is the same.
pub proof fn law_pause_freezes_time(clock: PauseClock, t1: int, t2: int)
    requires
        clock.pause_started matches Some(ps) && ps <= t1 && t1 <= t2,
    ensures
        active_time(clock, t1) == active_time(clock, t2),
{
}

/// The shown time is the time since the start less all paused time:
/// the earlier pauses and the pause under way, if any.
pub proof fn law_shown_time_excludes_all_pauses(clock: PauseClock, now: int)
    requires
        now >= 0,
    ensures
        active_time(clock, now) == sat_sub(
            now,
            clock.paused_total + match clock.pause_started {
                Some(ps) => sat_sub(now, ps as int),
                None => 0,
            },
        ),
{
}

/// During a pause the shown time is the recorded time up to the moment
/// the pause began: the time from the start to then, less the earlier
/// pauses.
pub proof fn law_pause_shows_time_at_pause_start(clock: PauseClock, now: int)
    requires
        clock.pause_started matches Some(ps) && ps <= now,
    ensures
        active_time(clock, now) == sat_sub(clock.pause_started->0 as int, clock.paused_total as int),
{
}

/// Resuming counts the whole pause: after a pause from `ps` to `resume`,
/// the paused total grows by `resume - ps`, and the time shown later is
/// the time since the start less all paused time.
pub proof fn law_resume_counts_pause(clock: PauseClock, resume: int, later: int)
    requires
        clock.pause_started matches Some(ps) && ps <= resume && resume <= later,
        paused_with_current(clock, resume) <= max_duration_nanos(),
    ensures
        paused_with_current(clock, resume) == clock.paused_total + (resume - clock.pause_started->0),
        active_time(
            PauseClock { paused_total: paused_with_current(clock, resume) as u128, pause_started: None },
            later,
        ) == sat_sub(later, clock.paused_total + (resume - clock.pause_started->0)),
{
}

/// `HH:MM:SS` of a number of seconds, each part at least two digits (the
/// hours may have more).
pub open spec fn clock_text(secs: nat) -> Seq<char> {
    zero_pad(decimal(secs / 3600), 2) + seq![':'] + zero_pad(decimal((secs % 3600) / 60), 2)
        + seq![':'] + zero_pad(decimal(secs % 60), 2)
}

/// The shown `HH:MM:SS` reads back to the number of seconds: hours
/// before the first colon, then two digits of minutes and two of seconds,
/// each below 60.
pub proof fn law_clock_text_reads_back(secs: nat)
    ensures
        ({
            let t = clock_text(secs);
            let hh = t.take(t.len() - 6);
            let mm = t.subrange(t.len() - 5, t.len() - 3);
            let ss = t.skip(t.len() - 2);
            &&& t.len() >= 8
            &&& t[t.len() - 6] == ':'
            &&& t[t.len() - 3] == ':'
            &&& crate::numbers::all_digits(hh)
            &&& crate::numbers::all_digits(mm)
            &&& crate::numbers::all_digits(ss)
            &&& crate::numbers::digits_value(mm) < 60
            &&& crate::numbers::digits_value(ss) < 60
            &&& crate::numbers::digits_value(hh) * 3600 + crate::numbers::digits_value(mm) * 60
                + crate::numbers::digits_value(ss) == secs
        }),
{
    let h = zero_pad(decimal(secs / 3600), 2);
    let m = zero_pad(decimal((secs % 3600) / 60), 2);
    let sp = zero_pad(decimal(secs % 60), 2);
    crate::numbers::lemma_zero_pad_value(secs / 3600, 2);
    crate::numbers::lemma_zero_pad_value((secs % 3600) / 60, 2);
    crate::numbers::lemma_zero_pad_value(secs % 60, 2);
    crate::numbers::lemma_decimal_len_below_100((secs % 3600) / 60);
    crate::numbers::lemma_decimal_len_below_100(secs % 60);
    let t = clock_text(secs);
    assert(t == h + seq![':'] + m + seq![':'] + sp);
    assert(t.take(t.len() - 6) =~= h);
    assert(t.subrange(t.len() - 5, t.len() - 3) =~= m);
    assert(t.skip(t.len() - 2) =~= sp);
    assert((secs / 3600) * 3600 + ((secs % 3600) / 60) * 60 + secs % 60 == secs);
}

/// Writes a number of seconds as `HH:MM:SS`.
pub fn format_clock(secs: u64) -> (out: String)
    ensures
        out@ == clock_text(secs as nat),
{
    let mut s = format_u64_padded(secs / 3600, 2);
    push_char(&mut s, ':');
    s.append(format_u64_padded((secs % 3600) / 60, 2).as_str());
    push_char(&mut s, ':');
    s.append(format_u64_padded(secs % 60, 2).as_str());
    s
}

/// The whole seconds of a duration given in nanoseconds.
pub fn whole_seconds(nanos: u128) -> (secs: u64)
    requires
        nanos <= max_duration_nanos(),
    ensures
        secs == nanos / 1_000_000_000,
{
    (nanos / 1_000_000_000) as u64
}

/// The length stored for a finished recording: its shown time in whole
/// seconds, as an `i64` (the same bits, for lengths past `i64::MAX`).
pub fn stored_duration_secs(nanos: u128) -> (secs: i64)
    requires
        nanos <= max_duration_nanos(),
    ensures
        secs == ((nanos / 1_000_000_000) as u64) as i64,
{
    whole_seconds(nanos) as i64
}

/// The status line when a transcription is over.
pub fn transcription_done_message(secs: u64) -> (out: String)
    ensures
        out@ == "Transcrição concluída em "@ + clock_text(secs as nat),
{
    let mut s = String::from_str("Transcrição concluída em ");
    s.append(format_clock(secs).as_str());
    s
}

/// Every sample twice in a row: mono made into interleaved stereo.
pub fn duplicate_to_stereo<T: Copy>(mixed: &Vec<T>) -> (out: Vec<T>)
    requires
        mixed@.len() * 2 <= usize::MAX,
    ensures
        out@.len() == mixed@.len() * 2,
        forall|i: int|
            0 <= i < mixed@.len() ==> out@[2 * i] == mixed@[i] && out@[2 * i + 1] == mixed@[i],
{
    let mut out: Vec<T> = Vec::with_capacity(mixed.len() * 2);
    let mut i: usize = 0;
    while i < mixed.len()
        invariant
            i <= mixed.len(),
            mixed@.len() * 2 <= usize::MAX,
            out@.len() == 2 * i,
            forall|k: int| 0 <= k < i ==> out@[2 * k] == mixed@[k] && out@[2 * k + 1] == mixed@[k],
        decreases mixed.len() - i,
    {
        out.push(mixed[i]);
        out.push(mixed[i]);
        i += 1;
    }
    out
}

/// The mixed block in the channel layout of the file: duplicated into
/// stereo where the target has two channels, unchanged otherwise.
pub fn shape_output<T: Copy>(mixed: Vec<T>, target_channels: u16) -> (out: Vec<T>)
    requires
        mixed@.len() * 2 <= usize::MAX,
    ensures
        target_channels == 2 ==> out@.len() == mixed@.len() * 2 && forall|i: int|
            0 <= i < mixed@.len() ==> out@[2 * i] == mixed@[i] && out@[2 * i + 1] == mixed@[i],
        target_channels != 2 ==> out@ == mixed@,
{
    if target_channels == 2 {
        duplicate_to_stereo(&mixed)
    } else {
        mixed
    }
}

} // verus!
