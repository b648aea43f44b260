//! Recordings as the history stores them, and how the history list shows
//! them.
use vstd::prelude::*;

use chrono::{Datelike, Timelike};

use crate::numbers::{
    all_digits, decimal, digits_value, format_i64_pad2, format_u64_padded, signed_pad2, zero_pad,
};
use crate::strings::{chars_of, push_char};
use vstd::string::StringExecFns;

verus! {

/// One row of the recordings table.
pub struct RecordingRow {
    pub id: i64,
    pub file_path: String,
    pub created_at: String,
    pub duration_secs: i64,
    pub transcription_status: String,
    pub transcription_text: Option<String>,
    pub display_name: Option<String>,
}

/// One entry of the history list.
pub struct RecordingItem {
    pub id: i32,
    pub name: String,
    pub date: String,
    pub duration: String,
    pub status: String,
}

/// Whether `chrono::DateTime::parse_from_rfc3339` accepts a timestamp.
pub uninterp spec fn rfc3339_accepts(s: Seq<char>) -> bool;

/// The fixed part of an RFC 3339 timestamp, `YYYY-MM-DDTHH:MM:SS`, that
/// chrono's parser reads from the first 19 bytes (all ASCII).
pub open spec fn rfc3339_layout(s: Seq<char>) -> bool {
    &&& s.len() >= 19
    &&& all_digits(s.subrange(0, 4))
    &&& s[4] == '-'
    &&& all_digits(s.subrange(5, 7))
    &&& s[7] == '-'
    &&& all_digits(s.subrange(8, 10))
    &&& (s[10] == 'T' || s[10] == 't' || s[10] == ' ')
    &&& all_digits(s.subrange(11, 13))
    &&& s[13] == ':'
    &&& all_digits(s.subrange(14, 16))
    &&& s[16] == ':'
    &&& all_digits(s.subrange(17, 19))
}

/// The year, month, day, hour and minute written in a timestamp's fixed
/// part.
pub open spec fn rfc3339_fields_of(s: Seq<char>) -> (i32, u32, u32, u32, u32) {
    (
        digits_value(s.subrange(0, 4)) as i32,
        digits_value(s.subrange(5, 7)) as u32,
        digits_value(s.subrange(8, 10)) as u32,
        digits_value(s.subrange(11, 13)) as u32,
        digits_value(s.subrange(14, 16)) as u32,
    )
}

/// `chrono::DateTime::parse_from_rfc3339`, then the year, month, day, hour
/// and minute of the result in its own offset. Which texts it accepts is
/// left to the name `rfc3339_accepts`. Of an accepted text the crate's
/// parser reads the ASCII digits and separators of the first 19 bytes; the
/// fields, read in the text's own offset, are the digits written there, and
/// the date and time of day were checked, so they lie in calendar ranges.
#[verifier::external_body]
fn parse_rfc3339_fields(s: &str) -> (out: Option<(i32, u32, u32, u32, u32)>)
    ensures
        (out is Some) == rfc3339_accepts(s@),
        out matches Some(f) ==> rfc3339_layout(s@) && f == rfc3339_fields_of(s@),
        out matches Some(f) ==> 0 <= f.0 <= 9999 && 1 <= f.1 <= 12 && 1 <= f.2 <= 31 && f.3
            <= 23 && f.4 <= 59,
{
    match chrono::DateTime::parse_from_rfc3339(s) {
        Ok(dt) => Some((dt.year(), dt.month(), dt.day(), dt.hour(), dt.minute())),
        Err(_) => None,
    }
}

/// What chrono's `%Y` writes: four digits for the years 0 to 9999, else
/// the sign and at least four digits.
pub open spec fn year_text(y: int) -> Seq<char> {
    if 0 <= y <= 9999 {
        zero_pad(decimal(y as nat), 4)
    } else if y < 0 {
        seq!['-'] + zero_pad(decimal((-y) as nat), 4)
    } else {
        seq!['+'] + zero_pad(decimal(y as nat), 4)
    }
}

/// Writes a year as chrono's `%Y` does.
pub fn format_year(y: i32) -> (out: String)
    ensures
        out@ == year_text(y as int),
{
    if 0 <= y && y <= 9999 {
        format_u64_padded(y as u64, 4)
    } else if y < 0 {
        let mut s = String::new();
        push_char(&mut s, '-');
        s.append(format_u64_padded((0i64 - y as i64) as u64, 4).as_str());
        s
    } else {
        let mut s = String::new();
        push_char(&mut s, '+');
        s.append(format_u64_padded(y as u64, 4).as_str());
        s
    }
}

pub open spec fn two_digits(v: u32) -> Seq<char> {
    zero_pad(decimal(v as nat), 2)
}

/// `DD/MM/YYYY HH:MM`, as chrono's `%d/%m/%Y %H:%M` writes it.
pub open spec fn date_text(f: (i32, u32, u32, u32, u32)) -> Seq<char> {
    two_digits(f.2) + seq!['/'] + two_digits(f.1) + seq!['/'] + year_text(f.0 as int) + seq![' ']
        + two_digits(f.3) + seq![':'] + two_digits(f.4)
}

/// Writes a date and time as `DD/MM/YYYY HH:MM`.
pub fn format_display_date(f: (i32, u32, u32, u32, u32)) -> (out: String)
    ensures
        out@ == date_text(f),
{
    let mut s = format_u64_padded(f.2 as u64, 2);
    push_char(&mut s, '/');
    s.append(format_u64_padded(f.1 as u64, 2).as_str());
    push_char(&mut s, '/');
    s.append(format_year(f.0).as_str());
    push_char(&mut s, ' ');
    s.append(format_u64_padded(f.3 as u64, 2).as_str());
    push_char(&mut s, ':');
    s.append(format_u64_padded(f.4 as u64, 2).as_str());
    s
}

/// The date shown for a recording: where the stored text is an RFC 3339
/// timestamp, the date and time written in it as `DD/MM/YYYY HH:MM`; else
/// the stored text itself.
pub open spec fn shown_date(created_at: Seq<char>) -> Seq<char> {
    if rfc3339_accepts(created_at) {
        date_text(rfc3339_fields_of(created_at))
    } else {
        created_at
    }
}

pub fn display_date(created_at: &str) -> (out: String)
    ensures
        out@ == shown_date(created_at@),
{
    match parse_rfc3339_fields(created_at) {
        Some(f) => format_display_date(f),
        None => String::from_str(created_at),
    }
}

/// The name of a new recording's file, from the local date and time when
/// it starts: `reuniao_%Y-%m-%d_%H-%M-%S.wav`.
pub open spec fn recording_file_name_text(
    year: i32,
    month: u32,
    day: u32,
    hour: u32,
    minute: u32,
    second: u32,
) -> Seq<char> {
    "reuniao_"@ + year_text(year as int) + seq!['-'] + two_digits(month) + seq!['-'] + two_digits(
        day,
    ) + seq!['_'] + two_digits(hour) + seq!['-'] + two_digits(minute) + seq!['-'] + two_digits(
        second,
    ) + ".wav"@
}

pub fn recording_file_name(
    year: i32,
    month: u32,
    day: u32,
    hour: u32,
    minute: u32,
    second: u32,
) -> (out: String)
    ensures
        out@ == recording_file_name_text(year, month, day, hour, minute, second),
{
    let mut s = String::from_str("reuniao_");
    s.append(format_year(year).as_str());
    push_char(&mut s, '-');
    s.append(format_u64_padded(month as u64, 2).as_str());
    push_char(&mut s, '-');
    s.append(format_u64_padded(day as u64, 2).as_str());
    push_char(&mut s, '_');
    s.append(format_u64_padded(hour as u64, 2).as_str());
    push_char(&mut s, '-');
    s.append(format_u64_padded(minute as u64, 2).as_str());
    push_char(&mut s, '-');
    s.append(format_u64_padded(second as u64, 2).as_str());
    s.append(".wav");
    s
}

/// `MM:SS` of a duration in seconds: minutes and seconds as Rust's
/// truncating division and remainder give them, each written as `{:02}`.
pub open spec fn duration_text(secs: i64) -> Seq<char> {
    let a = secs as int;
    let m: int = if a >= 0 { a / 60 } else { -((-a) / 60) };
    let s: int = if a >= 0 { a % 60 } else { -((-a) % 60) };
    signed_pad2(m) + seq![':'] + signed_pad2(s)
}

/// For a non-negative length, the shown `MM:SS` reads back to it: whole
/// minutes before the colon, two digits of seconds below 60 after it.
pub proof fn law_duration_text_reads_back(secs: i64)
    requires
        secs >= 0,
    ensures
        ({
            let t = duration_text(secs);
            let mm = t.take(t.len() - 3);
            let ss = t.skip(t.len() - 2);
            &&& t.len() >= 5
            &&& t[t.len() - 3] == ':'
            &&& all_digits(mm)
            &&& all_digits(ss)
            &&& digits_value(ss) < 60
            &&& digits_value(mm) * 60 + digits_value(ss) == secs
        }),
{
    let n = secs as nat;
    crate::numbers::lemma_zero_pad_value(n / 60, 2);
    crate::numbers::lemma_zero_pad_value(n % 60, 2);
    crate::numbers::lemma_decimal_len_below_100(n % 60);
    let m = zero_pad(decimal(n / 60), 2);
    let sp = zero_pad(decimal(n % 60), 2);
    let t = duration_text(secs);
    assert(t == m + seq![':'] + sp);
    assert(t.take(t.len() - 3) =~= m);
    assert(t.skip(t.len() - 2) =~= sp);
    assert((n / 60) * 60 + n % 60 == n);
}

pub fn format_recording_duration(secs: i64) -> (out: String)
    ensures
        out@ == duration_text(secs),
{
    let (m, s): (i64, i64) = if secs >= 0 {
        (secs / 60, secs % 60)
    } else {
        let a: i128 = 0i128 - secs as i128;
        ((0i128 - a / 60) as i64, (0i128 - a % 60) as i64)
    };
    let mut out = format_i64_pad2(m);
    push_char(&mut out, ':');
    out.append(format_i64_pad2(s).as_str());
    out
}

/// The name shown for a recording: the name the user gave it, else the
/// file name of its path, else the whole path.
pub open spec fn shown_name(row: RecordingRow, file_name: Option<String>) -> Seq<char> {
    match row.display_name {
        Some(n) => n@,
        None => match file_name {
            Some(f) => f@,
            None => row.file_path@,
        },
    }
}

/// Whether `a` is a contiguous piece of `b`.
pub open spec fn is_piece_of(a: Seq<char>, b: Seq<char>) -> bool {
    exists|i: int| 0 <= i && i + a.len() <= b.len() && #[trigger] b.subrange(i, i + a.len()) == a
}

/// The last component of a path (`Path::file_name`, as UTF-8). Which
/// component that is depends on the path rules of the platform; on every
/// platform it is a normal component, a non-empty slice of the path
/// between separators, so its characters are a contiguous piece of the
/// path's.
#[verifier::external_body]
fn path_file_name(path: &str) -> (out: Option<String>)
    ensures
        out matches Some(n) ==> n@.len() > 0 && is_piece_of(n@, path@),
{
    std::path::Path::new(path).file_name().and_then(|n| n.to_str()).map(|n| n.to_string())
}

/// The history entry of a row, given the file name of its path.
pub fn recording_item_with(row: &RecordingRow, file_name: Option<String>) -> (item: RecordingItem)
    ensures
        item.id == row.id as i32,
        item.name@ == shown_name(*row, file_name),
        item.date@ == shown_date(row.created_at@),
        item.duration@ == duration_text(row.duration_secs),
        item.status@ == row.transcription_status@,
{
    let name = match &row.display_name {
        Some(n) => n.clone(),
        None => match file_name {
            Some(f) => f,
            None => row.file_path.clone(),
        },
    };
    RecordingItem {
        id: row.id as i32,
        name,
        date: display_date(row.created_at.as_str()),
        duration: format_recording_duration(row.duration_secs),
        status: row.transcription_status.clone(),
    }
}

/// The history entry of a row. Its name is the user's name for it where
/// it has one; otherwise it comes from the platform's reading of the path:
/// a piece of the path, not empty where the path is not.
pub fn recording_item(row: &RecordingRow) -> (item: RecordingItem)
    ensures
        item.id == row.id as i32,
        row.display_name matches Some(n) ==> item.name@ == n@,
        row.display_name is None ==> is_piece_of(item.name@, row.file_path@) && (
        row.file_path@.len() > 0 ==> item.name@.len() > 0),
        item.date@ == shown_date(row.created_at@),
        item.duration@ == duration_text(row.duration_secs),
        item.status@ == row.transcription_status@,
{
    let file_name = match &row.display_name {
        Some(_) => None,
        None => path_file_name(row.file_path.as_str()),
    };
    proof {
        let p = row.file_path@;
        assert(p.subrange(0, 0int + p.len()) =~= p);
        assert(is_piece_of(p, p));
    }
    recording_item_with(row, file_name)
}

/// The index of the first row whose id is `id`.
pub fn find_recording(rows: &Vec<RecordingRow>, id: i64) -> (out: Option<usize>)
    ensures
        out matches Some(i) ==> i < rows@.len() && rows@[i as int].id == id && forall|j: int|
            0 <= j < i ==> rows@[j].id != id,
        out is None ==> forall|j: int| 0 <= j < rows@.len() ==> rows@[j].id != id,
{
    let mut i: usize = 0;
    while i < rows.len()
        invariant
            i <= rows.len(),
            forall|j: int| 0 <= j < i ==> rows@[j].id != id,
        decreases rows.len() - i,
    {
        if rows[i].id == id {
            return Some(i);
        }
        i += 1;
    }
    None
}

/// Whether a row holds a finished transcription: its status is `done` and
/// it has a text.
pub open spec fn has_saved_transcription(row: RecordingRow) -> bool {
    row.transcription_status@ == "done"@ && row.transcription_text is Some
}

pub fn saved_transcription_available(row: &RecordingRow) -> (b: bool)
    ensures
        b == has_saved_transcription(*row),
{
    let st = chars_of(row.transcription_status.as_str());
    proof {
        reveal_strlit("done");
    }
    let done = st.len() == 4 && st[0] == 'd' && st[1] == 'o' && st[2] == 'n' && st[3] == 'e';
    assert(done ==> st@ =~= "done"@);
    assert(st@ == "done"@ ==> done) by {
        if st@ == "done"@ {
            assert(st@[0] == 'd' && st@[1] == 'o' && st@[2] == 'n' && st@[3] == 'e');
        }
    }
    done && row.transcription_text.is_some()
}

/// The status line shown when a recording is picked from the history.
pub fn selection_status(row: &RecordingRow) -> (out: String)
    ensures
        out@ == (if has_saved_transcription(*row) {
            "Transcricao anterior carregada"@
        } else {
            Seq::<char>::empty()
        }),
{
    if saved_transcription_available(row) {
        String::from_str("Transcricao anterior carregada")
    } else {
        String::new()
    }
}

} // verus!
