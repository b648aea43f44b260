//! Transcription results: the segments that the engines give, how the
//! cloud reply is cut into sentences, how segments are shown and searched.
use vstd::prelude::*;

use crate::numbers::{decimal, format_u64_padded, zero_pad};
use crate::strings::{
    chars_of, contains_chars, contains_text, is_one_of, joined, lemma_pieces_have_no_separator,
    lemma_pieces_concat, lemma_pieces_without_separator, lowercase_of, pieces, string_of, to_lowercase, trim, trim_chars, trim_end,
    trim_start, texts_view,
};
use vstd::string::StringExecFns;

verus! {

#[derive(Debug, Clone)]
pub struct TranscriptionSegment {
    pub text: String,
    pub start_ms: u64,
    pub end_ms: u64,
}

/// Transcription through the OpenAI API.
pub struct CloudEngine {
    pub api_key: String,
}

impl CloudEngine {
    pub fn new(api_key: String) -> (out: Self)
        ensures
            out.api_key == api_key,
    {
        CloudEngine { api_key }
    }
}

/// Transcription with a local whisper model.
pub struct LocalEngine {
    pub model_path: String,
}

impl LocalEngine {
    pub fn new(model_path: String) -> (out: Self)
        ensures
            out.model_path == model_path,
    {
        LocalEngine { model_path }
    }
}

/// The characters that end a sentence.
pub open spec fn sentence_ends() -> Seq<char> {
    seq!['.', '!', '?']
}

/// The trimmed pieces that are not empty, in order.
pub open spec fn kept_sentences(ps: Seq<Seq<char>>) -> Seq<Seq<char>>
    decreases ps.len(),
{
    if ps.len() == 0 {
        Seq::empty()
    } else {
        let rest = kept_sentences(ps.drop_last());
        if trim(ps.last()).len() > 0 {
            rest.push(trim(ps.last()))
        } else {
            rest
        }
    }
}

/// The sentences of a text: the pieces between `.`, `!` and `?`, each
/// trimmed, the empty ones left out.
pub open spec fn sentences(text: Seq<char>) -> Seq<Seq<char>> {
    kept_sentences(pieces(text, sentence_ends()))
}

/// The sentences of `text` (see `sentences`).
pub fn split_sentences(text: &str) -> (out: Vec<String>)
    ensures
        texts_view(out@) == sentences(text@),
{
    let cs = chars_of(text);
    let seps: [char; 3] = ['.', '!', '?'];
    assert(seps@ =~= sentence_ends());
    let mut out: Vec<String> = Vec::new();
    let mut cur: Vec<char> = Vec::new();
    let mut i: usize = 0;
    proof {
        assert(cs@.take(0) =~= Seq::<char>::empty());
    }
    while i < cs.len()
        invariant
            i <= cs.len(),
            seps@ == sentence_ends(),
            pieces(cs@.take(i as int), sentence_ends()).len() >= 1,
            texts_view(out@) == kept_sentences(
                pieces(cs@.take(i as int), sentence_ends()).drop_last(),
            ),
            cur@ == pieces(cs@.take(i as int), sentence_ends()).last(),
        decreases cs.len() - i,
    {
        let c = cs[i];
        let ghost before = pieces(cs@.take(i as int), sentence_ends());
        let ghost pre = cs@.take(i + 1);
        assert(pre.drop_last() =~= cs@.take(i as int));
        assert(pre.last() == c);
        if is_one_of(c, &seps) {
            assert(pieces(pre, sentence_ends()) == before.push(Seq::<char>::empty()));
            assert(pieces(pre, sentence_ends()).drop_last() =~= before);
            assert(before.drop_last().push(before.last()) =~= before);
            let t = trim_chars(cur.as_slice());
            if t.len() > 0 {
                let ghost old_out = texts_view(out@);
                out.push(string_of(t.as_slice()));
                assert(texts_view(out@) =~= old_out.push(t@));
            }
            cur = Vec::new();
            assert(cur@ =~= pieces(pre, sentence_ends()).last());
        } else {
            let ghost after = before.update(before.len() - 1, before.last().push(c));
            assert(pieces(pre, sentence_ends()) == after);
            assert(after.drop_last() =~= before.drop_last());
            cur.push(c);
        }
        i += 1;
    }
    assert(cs@.take(cs.len() as int) =~= cs@);
    let ghost all = pieces(cs@, sentence_ends());
    assert(all.drop_last().push(all.last()) =~= all);
    let t = trim_chars(cur.as_slice());
    if t.len() > 0 {
        let ghost old_out = texts_view(out@);
        out.push(string_of(t.as_slice()));
        assert(texts_view(out@) =~= old_out.push(t@));
    }
    out
}

proof fn lemma_kept_sentences_clean(ps: Seq<Seq<char>>, seps: Seq<char>)
    requires
        forall|i: int, k: int|
            0 <= i < ps.len() && 0 <= k < ps[i].len() ==> !seps.contains(#[trigger] ps[i][k]),
    ensures
        forall|i: int| 0 <= i < kept_sentences(ps).len() ==> {
            &&& (#[trigger] kept_sentences(ps)[i]).len() > 0
            &&& kept_sentences(ps)[i] == trim(kept_sentences(ps)[i])
            &&& forall|k: int|
                0 <= k < kept_sentences(ps)[i].len() ==> !seps.contains(kept_sentences(ps)[i][k])
        },
    decreases ps.len(),
{
    if ps.len() > 0 {
        lemma_kept_sentences_clean(ps.drop_last(), seps);
        let t = trim(ps.last());
        let a = crate::strings::lemma_trim_is_infix(ps.last());
        lemma_trim_idempotent(ps.last());
        let rest = kept_sentences(ps.drop_last());
        assert forall|i: int, k: int|
            0 <= i < ps.drop_last().len() && 0 <= k < ps.drop_last()[i].len() implies !seps.contains(#[trigger] ps.drop_last()[i][k]) by {
            assert(ps.drop_last()[i] == ps[i]);
        }
        assert forall|k: int| 0 <= k < t.len() implies !seps.contains(t[k]) by {
            assert(t[k] == ps[ps.len() - 1][a + k]);
        }
    }
}

proof fn lemma_trim_idempotent(s: Seq<char>)
    ensures
        trim(trim(s)) == trim(s),
{
    crate::strings::lemma_trim_ends(s);
    let t = trim(s);
    if t.len() > 0 {
        assert(trim_start(t) == t);
        assert(trim_end(t) == t);
    } else {
        assert(trim_start(t) == t);
    }
}

/// Every sentence is non-empty, has no white space at either end and
/// holds none of `.`, `!`, `?`.
pub proof fn law_sentences_are_clean(text: Seq<char>)
    ensures
        forall|i: int| 0 <= i < sentences(text).len() ==> {
            &&& (#[trigger] sentences(text)[i]).len() > 0
            &&& sentences(text)[i] == trim(sentences(text)[i])
            &&& forall|k: int|
                0 <= k < sentences(text)[i].len() ==> !sentence_ends().contains(sentences(text)[i][k])
        },
{
    lemma_pieces_have_no_separator(text, sentence_ends());
    lemma_kept_sentences_clean(pieces(text, sentence_ends()), sentence_ends());
}

proof fn lemma_kept_sentences_concat(p: Seq<Seq<char>>, q: Seq<Seq<char>>)
    ensures
        kept_sentences(p + q) == kept_sentences(p) + kept_sentences(q),
    decreases q.len(),
{
    if q.len() == 0 {
        assert(p + q =~= p);
        assert(kept_sentences(p) + kept_sentences(q) =~= kept_sentences(p));
    } else {
        lemma_kept_sentences_concat(p, q.drop_last());
        assert((p + q).drop_last() =~= p + q.drop_last());
        assert((p + q).last() == q.last());
        if trim(q.last()).len() > 0 {
            assert((kept_sentences(p) + kept_sentences(q.drop_last())).push(trim(q.last()))
                =~= kept_sentences(p) + kept_sentences(q.drop_last()).push(trim(q.last())));
        }
    }
}

/// A text with none of `.`, `!`, `?` is one sentence, itself trimmed,
/// where it is not blank: no other character ends a sentence.
pub proof fn law_sentence_without_ends(text: Seq<char>)
    requires
        forall|k: int| 0 <= k < text.len() ==> text[k] != '.' && text[k] != '!' && text[k] != '?',
        trim(text).len() > 0,
    ensures
        sentences(text) == seq![trim(text)],
{
    assert forall|k: int| 0 <= k < text.len() implies !sentence_ends().contains(#[trigger] text[k]) by {
        if sentence_ends().contains(text[k]) {
            let j = choose|j: int| 0 <= j < 3 && sentence_ends()[j] == text[k];
        }
    }
    lemma_pieces_without_separator(text, sentence_ends());
    let ps = seq![text];
    assert(ps.drop_last() =~= Seq::<Seq<char>>::empty());
    assert(kept_sentences(Seq::<Seq<char>>::empty()) =~= Seq::<Seq<char>>::empty());
    assert(Seq::<Seq<char>>::empty().push(trim(text)) =~= seq![trim(text)]);
}

/// Each of `.`, `!`, `?` ends a sentence: the sentences of `a`, the mark,
/// then `b` are those of `a` followed by those of `b`.
pub proof fn law_sentences_split_at_end_mark(a: Seq<char>, c: char, b: Seq<char>)
    requires
        c == '.' || c == '!' || c == '?',
    ensures
        sentences(a + seq![c] + b) == sentences(a) + sentences(b),
{
    assert(sentence_ends().contains(c)) by {
        if c == '.' {
            assert(sentence_ends()[0] == c);
        } else if c == '!' {
            assert(sentence_ends()[1] == c);
        } else {
            assert(sentence_ends()[2] == c);
        }
    }
    lemma_pieces_concat(a, c, b, sentence_ends());
    lemma_kept_sentences_concat(pieces(a, sentence_ends()), pieces(b, sentence_ends()));
}

/// Why a cloud reply gave no segments.
#[derive(Debug, Clone, Copy, PartialEq, Eq)]
pub enum CloudTextError {
    /// The reply held only white space.
    EmptyTranscription,
}

pub open spec fn segments_texts(v: Seq<TranscriptionSegment>) -> Seq<Seq<char>> {
    Seq::new(v.len(), |i: int| v[i].text@)
}

/// The segment texts that a cloud reply gives: its sentences, or the whole
/// trimmed reply where it has no sentence.
pub open spec fn cloud_segment_texts(reply: Seq<char>) -> Seq<Seq<char>> {
    if sentences(trim(reply)).len() > 0 {
        sentences(trim(reply))
    } else {
        seq![trim(reply)]
    }
}

/// A cloud reply with none of `.`, `!`, `?` and not blank gives one
/// segment: the trimmed reply.
pub proof fn law_cloud_reply_without_ends(reply: Seq<char>)
    requires
        forall|k: int| 0 <= k < reply.len() ==> reply[k] != '.' && reply[k] != '!' && reply[k] != '?',
        trim(reply).len() > 0,
    ensures
        cloud_segment_texts(reply) == seq![trim(reply)],
{
    let t = trim(reply);
    let a = crate::strings::lemma_trim_is_infix(reply);
    assert forall|k: int| 0 <= k < t.len() implies t[k] != '.' && t[k] != '!' && t[k] != '?' by {
        assert(t[k] == reply[a + k]);
    }
    lemma_trim_idempotent(reply);
    law_sentence_without_ends(t);
}

/// Cuts the text of a cloud transcription into segments, one per
/// sentence, without timestamps; an empty reply is an error.
pub fn segments_from_cloud_text(reply: &str) -> (out: Result<Vec<TranscriptionSegment>, CloudTextError>)
    ensures
        out is Err <==> trim(reply@).len() == 0,
        out matches Ok(segs) ==> {
            &&& segments_texts(segs@) == cloud_segment_texts(reply@)
            &&& forall|i: int| 0 <= i < segs@.len() ==> (#[trigger] segs@[i]).start_ms == 0 && segs@[i].end_ms == 0
        },
{
    let text = crate::strings::trim_str(reply);
    let tc = chars_of(text.as_str());
    if tc.len() == 0 {
        return Err(CloudTextError::EmptyTranscription);
    }
    let sentences_found = split_sentences(text.as_str());
    let mut segs: Vec<TranscriptionSegment> = Vec::new();
    let mut i: usize = 0;
    while i < sentences_found.len()
        invariant
            i <= sentences_found.len(),
            segs@.len() == i,
            segments_texts(segs@) == texts_view(sentences_found@).take(i as int),
            forall|k: int| 0 <= k < segs@.len() ==> (#[trigger] segs@[k]).start_ms == 0 && segs@[k].end_ms == 0,
        decreases sentences_found.len() - i,
    {
        let ghost old_segs = segs@;
        segs.push(TranscriptionSegment { text: sentences_found[i].clone(), start_ms: 0, end_ms: 0 });
        assert forall|k: int| 0 <= k < i implies segments_texts(segs@)[k] == segments_texts(old_segs)[k] by {
            assert(segs@[k] == old_segs[k]);
        }
        assert(segments_texts(segs@)[i as int] == sentences_found@[i as int]@);
        assert(segments_texts(segs@) =~= texts_view(sentences_found@).take(i + 1));
        i += 1;
    }
    assert(texts_view(sentences_found@).take(i as int) =~= texts_view(sentences_found@));
    if segs.len() == 0 {
        segs.push(TranscriptionSegment { text, start_ms: 0, end_ms: 0 });
        assert(segments_texts(segs@) =~= seq![trim(reply@)]);
    }
    Ok(segs)
}

/// The largest file the cloud API accepts: 25 MiB.
pub const UPLOAD_LIMIT_BYTES: u64 = 26214400;

/// Whether a file of `size` bytes is over the cloud API's limit.
pub fn exceeds_upload_limit(size: u64) -> (b: bool)
    ensures
        b == (size > 25 * 1024 * 1024),
{
    size > UPLOAD_LIMIT_BYTES
}

/// The language of a cloud transcription: the one asked for, else `pt`.
pub fn language_or_default<'a>(language: Option<&'a str>) -> (out: &'a str)
    ensures
        out@ == match language {
            Some(l) => l@,
            None => "pt"@,
        },
{
    match language {
        Some(l) => l,
        None => "pt",
    }
}

/// A whisper segment: its trimmed text, and its bounds turned from
/// centiseconds into milliseconds (a negative bound counts as the
/// unsigned value of the same bits).
pub fn whisper_segment(text: &str, start_cs: i64, end_cs: i64) -> (out: TranscriptionSegment)
    requires
        (start_cs as u64) * 10 <= u64::MAX,
        (end_cs as u64) * 10 <= u64::MAX,
    ensures
        out.text@ == trim(text@),
        out.start_ms == (start_cs as u64) * 10,
        out.end_ms == (end_cs as u64) * 10,
{
    TranscriptionSegment {
        text: crate::strings::trim_str(text),
        start_ms: (start_cs as u64) * 10,
        end_ms: (end_cs as u64) * 10,
    }
}

/// The full text of a transcription: the segment texts joined by spaces.
pub fn full_text(segments: &Vec<TranscriptionSegment>) -> (out: String)
    ensures
        out@ == joined(segments_texts(segments@), seq![' ']),
{
    let mut out = String::new();
    let mut i: usize = 0;
    while i < segments.len()
        invariant
            i <= segments.len(),
            out@ == joined(segments_texts(segments@).take(i as int), seq![' ']),
        decreases segments.len() - i,
    {
        let ghost ts = segments_texts(segments@);
        assert(ts.take(i + 1).drop_last() =~= ts.take(i as int));
        if i > 0 {
            crate::strings::push_char(&mut out, ' ');
        } else {
            assert(ts.take(0) =~= Seq::<Seq<char>>::empty());
        }
        out.append(segments[i].text.as_str());
        assert(out@ =~= joined(ts.take(i + 1), seq![' ']));
        i += 1;
    }
    assert(segments_texts(segments@).take(i as int) =~= segments_texts(segments@));
    out
}

/// A segment as the transcription list shows it.
#[derive(Debug, Clone)]
pub struct DisplaySegment {
    pub timestamp: String,
    pub text: String,
}

/// `MM:SS` of the start of a segment, minutes first, each at least two
/// digits.
pub open spec fn segment_timestamp(start_ms: u64) -> Seq<char> {
    let secs = start_ms as nat / 1000;
    zero_pad(decimal(secs / 60), 2) + seq![':'] + zero_pad(decimal(secs % 60), 2)
}

/// The shown `MM:SS` reads back to the start second: the digits before
/// the colon are whole minutes, the two after it the seconds left (below
/// 60), and together they give `start_ms / 1000` seconds.
pub proof fn law_segment_timestamp_reads_back(start_ms: u64)
    ensures
        ({
            let t = segment_timestamp(start_ms);
            let mm = t.take(t.len() - 3);
            let ss = t.skip(t.len() - 2);
            &&& t.len() >= 5
            &&& t[t.len() - 3] == ':'
            &&& crate::numbers::all_digits(mm)
            &&& crate::numbers::all_digits(ss)
            &&& crate::numbers::digits_value(ss) < 60
            &&& crate::numbers::digits_value(mm) * 60 + crate::numbers::digits_value(ss) == start_ms / 1000
        }),
{
    let secs = start_ms as nat / 1000;
    let m = zero_pad(decimal(secs / 60), 2);
    let sp = zero_pad(decimal(secs % 60), 2);
    crate::numbers::lemma_zero_pad_value(secs / 60, 2);
    crate::numbers::lemma_zero_pad_value(secs % 60, 2);
    crate::numbers::lemma_decimal_len_below_100(secs % 60);
    let t = segment_timestamp(start_ms);
    assert(t == m + seq![':'] + sp);
    assert(sp.len() == 2);
    assert(t.take(t.len() - 3) =~= m);
    assert(t.skip(t.len() - 2) =~= sp);
    assert(t[t.len() - 3] == ':');
    assert((secs / 60) * 60 + secs % 60 == secs);
}

pub fn format_segment_timestamp(start_ms: u64) -> (out: String)
    ensures
        out@ == segment_timestamp(start_ms),
{
    let secs = start_ms / 1000;
    let mut s = format_u64_padded(secs / 60, 2);
    crate::strings::push_char(&mut s, ':');
    let tail = format_u64_padded(secs % 60, 2);
    s.append(tail.as_str());
    s
}

/// The segments as the transcription list shows them: each with its
/// `MM:SS` start and its text.
pub fn display_segments(segments: &Vec<TranscriptionSegment>) -> (out: Vec<DisplaySegment>)
    ensures
        out@.len() == segments@.len(),
        forall|i: int|
            0 <= i < out@.len() ==> (#[trigger] out@[i]).timestamp@ == segment_timestamp(
                segments@[i].start_ms,
            ) && out@[i].text@ == segments@[i].text@,
{
    let mut out: Vec<DisplaySegment> = Vec::new();
    let mut i: usize = 0;
    while i < segments.len()
        invariant
            i <= segments.len(),
            out@.len() == i,
            forall|k: int|
                0 <= k < i ==> (#[trigger] out@[k]).timestamp@ == segment_timestamp(
                    segments@[k].start_ms,
                ) && out@[k].text@ == segments@[k].text@,
        decreases segments.len() - i,
    {
        let seg = &segments[i];
        out.push(
            DisplaySegment {
                timestamp: format_segment_timestamp(seg.start_ms),
                text: seg.text.clone(),
            },
        );
        i += 1;
    }
    out
}

/// The timestamp shown for a saved transcription, whose times are lost.
pub open spec fn unknown_timestamp() -> Seq<char> {
    seq!['-', '-', ':', '-', '-']
}

/// The segments shown for a transcription saved as plain text: its
/// sentences, each with the unknown timestamp `--:--`.
pub fn saved_text_segments(text: &str) -> (out: Vec<DisplaySegment>)
    ensures
        out@.len() == sentences(text@).len(),
        forall|i: int|
            0 <= i < out@.len() ==> (#[trigger] out@[i]).timestamp@ == unknown_timestamp()
                && out@[i].text@ == sentences(text@)[i],
{
    let parts = split_sentences(text);
    let mut out: Vec<DisplaySegment> = Vec::new();
    let mut i: usize = 0;
    let unknown: [char; 5] = ['-', '-', ':', '-', '-'];
    assert(unknown@ =~= unknown_timestamp());
    while i < parts.len()
        invariant
            i <= parts.len(),
            unknown@ == unknown_timestamp(),
            texts_view(parts@) == sentences(text@),
            out@.len() == i,
            forall|k: int|
                0 <= k < i ==> (#[trigger] out@[k]).timestamp@ == unknown_timestamp()
                    && out@[k].text@ == sentences(text@)[k],
        decreases parts.len() - i,
    {
        out.push(DisplaySegment { timestamp: string_of(&unknown), text: parts[i].clone() });
        assert(texts_view(parts@)[i as int] == parts@[i as int]@);
        i += 1;
    }
    out
}

/// Whether a segment is kept by a search for `query` (already lower-case):
/// its lower-cased text contains the query.
pub open spec fn matches_query(seg: DisplaySegment, query: Seq<char>) -> bool {
    contains_text(lowercase_of(seg.text@), query)
}

/// The segments that a search keeps, in order: all of them where the
/// lower-cased search text is empty, else those that match it.
pub open spec fn search_result(segments: Seq<DisplaySegment>, search: Seq<char>) -> Seq<DisplaySegment> {
    let query = lowercase_of(search);
    if query.len() == 0 {
        segments
    } else {
        segments.filter(|s: DisplaySegment| matches_query(s, query))
    }
}

/// A search keeps segments in their order and only those that match it;
/// a search that lower-cases to nothing keeps every segment.
pub proof fn law_search_keeps_matches(segments: Seq<DisplaySegment>, search: Seq<char>)
    ensures
        search_result(segments, search).len() <= segments.len(),
        lowercase_of(search).len() == 0 ==> search_result(segments, search) == segments,
        lowercase_of(search).len() > 0 ==> forall|i: int|
            0 <= i < search_result(segments, search).len() ==> matches_query(
                #[trigger] search_result(segments, search)[i],
                lowercase_of(search),
            ),
        lowercase_of(search).len() > 0 ==> forall|i: int|
            0 <= i < segments.len() && matches_query(#[trigger] segments[i], lowercase_of(search))
                ==> search_result(segments, search).contains(segments[i]),
{
    let q = lowercase_of(search);
    let pred = |s: DisplaySegment| matches_query(s, q);
    if q.len() > 0 {
        segments.lemma_filter_len(pred);
        assert forall|i: int| 0 <= i < segments.filter(pred).len() implies matches_query(
            #[trigger] segments.filter(pred)[i],
            q,
        ) by {
            segments.lemma_filter_pred(pred, i);
        }
        assert forall|i: int| 0 <= i < segments.len() && matches_query(#[trigger] segments[i], q)
            implies segments.filter(pred).contains(segments[i]) by {
            segments.lemma_filter_contains(pred, i);
        }
    }
}

fn clone_segment(s: &DisplaySegment) -> (out: DisplaySegment)
    ensures
        out.timestamp@ == s.timestamp@,
        out.text@ == s.text@,
{
    DisplaySegment { timestamp: s.timestamp.clone(), text: s.text.clone() }
}

pub open spec fn display_view(v: Seq<DisplaySegment>) -> Seq<(Seq<char>, Seq<char>)> {
    Seq::new(v.len(), |i: int| (v[i].timestamp@, v[i].text@))
}

/// The segments that a search for `search` keeps (see `search_result`),
/// compared by timestamp and text.
pub fn filter_segments(segments: &Vec<DisplaySegment>, search: &str) -> (out: Vec<DisplaySegment>)
    ensures
        display_view(out@) == display_view(search_result(segments@, search@)),
{
    let query = to_lowercase(search);
    let qc = chars_of(query.as_str());
    if qc.len() == 0 {
        let mut all: Vec<DisplaySegment> = Vec::new();
        let mut i: usize = 0;
        while i < segments.len()
            invariant
                i <= segments.len(),
                all@.len() == i,
                display_view(all@) == display_view(segments@.take(i as int)),
            decreases segments.len() - i,
        {
            let ghost old_all = all@;
            all.push(clone_segment(&segments[i]));
            assert forall|k: int| 0 <= k < i implies display_view(all@)[k] == display_view(old_all)[k] by {
                assert(all@[k] == old_all[k]);
            }
            assert forall|k: int| 0 <= k < i implies display_view(old_all)[k] == display_view(segments@.take(i + 1))[k] by {
                assert(display_view(old_all)[k] == display_view(segments@.take(i as int))[k]);
                assert(segments@.take(i + 1)[k] == segments@.take(i as int)[k]);
            }
            assert(display_view(all@)[i as int] == display_view(segments@.take(i + 1))[i as int]);
            assert(display_view(all@).len() == i + 1);
            assert(display_view(segments@.take(i + 1)).len() == i + 1);
            assert forall|k: int| 0 <= k < i + 1 implies display_view(all@)[k] == display_view(segments@.take(i + 1))[k] by {
                if k < i {
                    assert(display_view(all@)[k] == display_view(old_all)[k]);
                }
            }
            assert(display_view(all@) =~= display_view(segments@.take(i + 1)));
            i += 1;
        }
        assert(segments@.take(i as int) =~= segments@);
        return all;
    }
    let ghost q = lowercase_of(search@);
    let ghost pred = |s: DisplaySegment| matches_query(s, q);
    let mut kept: Vec<DisplaySegment> = Vec::new();
    let mut i: usize = 0;
    while i < segments.len()
        invariant
            i <= segments.len(),
            qc@ == q,
            pred == (|s: DisplaySegment| matches_query(s, q)),
            display_view(kept@) == display_view(segments@.take(i as int).filter(pred)),
        decreases segments.len() - i,
    {
        let lower = to_lowercase(segments[i].text.as_str());
        let lc = chars_of(lower.as_str());
        let hit = contains_chars(lc.as_slice(), qc.as_slice());
        let ghost before = segments@.take(i as int);
        let ghost after = segments@.take(i + 1);
        assert(after.drop_last() =~= before);
        assert(after.filter(pred) == if pred(after.last()) {
            before.filter(pred).push(after.last())
        } else {
            before.filter(pred)
        }) by {
            reveal_with_fuel(Seq::filter, 1);
        }
        if hit {
            let ghost old_kept = kept@;
            kept.push(clone_segment(&segments[i]));
            assert forall|k: int| 0 <= k < old_kept.len() implies display_view(kept@)[k] == display_view(old_kept)[k] by {
                assert(kept@[k] == old_kept[k]);
            }
            assert(pred(after.last()));
            let ghost f = before.filter(pred);
            assert(display_view(old_kept).len() == old_kept.len());
            assert(display_view(f).len() == f.len());
            assert(old_kept.len() == f.len());
            assert forall|k: int| 0 <= k < f.len() implies display_view(kept@)[k] == display_view(f.push(after.last()))[k] by {
                assert(display_view(kept@)[k] == display_view(old_kept)[k]);
                assert(display_view(old_kept)[k] == display_view(f)[k]);
                assert(f.push(after.last())[k] == f[k]);
            }
            assert(display_view(kept@)[f.len() as int] == display_view(f.push(after.last()))[f.len() as int]);
            assert(display_view(kept@) =~= display_view(after.filter(pred)));
        } else {
            assert(!pred(after.last()));
        }
        i += 1;
    }
    assert(segments@.take(i as int) =~= segments@);
    kept
}

/// The audio file extensions that can be transcribed.
pub open spec fn is_supported_extension(lower: Seq<char>) -> bool {
    lower == "wav"@ || lower == "mp3"@ || lower == "m4a"@ || lower == "ogg"@ || lower == "flac"@
}

/// Whether a file with extension `ext` can be transcribed: its lower-case
/// form is one of `wav`, `mp3`, `m4a`, `ogg`, `flac`.
pub fn is_supported_audio_extension(ext: &str) -> (b: bool)
    ensures
        b == is_supported_extension(lowercase_of(ext@)),
{
    let lower = to_lowercase(ext);
    let lc = chars_of(lower.as_str());
    let wav: [char; 3] = ['w', 'a', 'v'];
    let mp3: [char; 3] = ['m', 'p', '3'];
    let m4a: [char; 3] = ['m', '4', 'a'];
    let ogg: [char; 3] = ['o', 'g', 'g'];
    let flac: [char; 4] = ['f', 'l', 'a', 'c'];
    proof {
        reveal_strlit("wav");
        reveal_strlit("mp3");
        reveal_strlit("m4a");
        reveal_strlit("ogg");
        reveal_strlit("flac");
    }
    assert(wav@ =~= "wav"@);
    assert(mp3@ =~= "mp3"@);
    assert(m4a@ =~= "m4a"@);
    assert(ogg@ =~= "ogg"@);
    assert(flac@ =~= "flac"@);
    crate::strings::chars_equal(lc.as_slice(), &wav) || crate::strings::chars_equal(lc.as_slice(), &mp3) || crate::strings::chars_equal(lc.as_slice(), &m4a)
        || crate::strings::chars_equal(lc.as_slice(), &ogg) || crate::strings::chars_equal(lc.as_slice(), &flac)
}

/// Why a transcription cannot start.
#[derive(Debug, Clone, Copy, PartialEq, Eq, Structural)]
pub enum TranscribeRefusal {
    /// No recording is selected.
    NoRecording,
    /// The selected file is not on disk.
    FileMissing,
    /// The selected file's extension is not an audio one.
    NotAudio,
}

/// Checks, in this order, that a file is selected, that it exists and
/// that its extension (where it has one) is a supported audio one.
pub fn transcription_refusal(has_file: bool, exists: bool, extension: Option<&str>) -> (out: Option<TranscribeRefusal>)
    ensures
        out == (if !has_file {
            Some(TranscribeRefusal::NoRecording)
        } else if !exists {
            Some(TranscribeRefusal::FileMissing)
        } else {
            match extension {
                Some(e) => if is_supported_extension(lowercase_of(e@)) {
                    None
                } else {
                    Some(TranscribeRefusal::NotAudio)
                },
                None => None,
            }
        }),
{
    if !has_file {
        Some(TranscribeRefusal::NoRecording)
    } else if !exists {
        Some(TranscribeRefusal::FileMissing)
    } else {
        match extension {
            Some(e) => if is_supported_audio_extension(e) {
                None
            } else {
                Some(TranscribeRefusal::NotAudio)
            },
            None => None,
        }
    }
}

/// The status line for a refused transcription.
pub fn refusal_message(r: TranscribeRefusal) -> (out: &'static str)
    ensures
        out@ == match r {
            TranscribeRefusal::NoRecording => "Nenhuma gravação para transcrever"@,
            TranscribeRefusal::FileMissing => "Arquivo de áudio não encontrado"@,
            TranscribeRefusal::NotAudio => "Arquivo inválido. Use arquivos de áudio (WAV, MP3, etc)"@,
        },
{
    match r {
        TranscribeRefusal::NoRecording => "Nenhuma gravação para transcrever",
        TranscribeRefusal::FileMissing => "Arquivo de áudio não encontrado",
        TranscribeRefusal::NotAudio => "Arquivo inválido. Use arquivos de áudio (WAV, MP3, etc)",
    }
}

/// The message of a cloud transcription chosen without an API key.
pub fn missing_api_key_message() -> (out: &'static str)
    ensures
        out@ == "Chave API OpenAI nao configurada. Va em Configuracoes e insira sua API key."@,
{
    "Chave API OpenAI nao configurada. Va em Configuracoes e insira sua API key."
}

/// Which engine a transcription runs on.
#[derive(Debug, Clone, Copy, PartialEq, Eq)]
pub enum EnginePlan {
    /// The cloud engine, with the configured key.
    Cloud,
    /// The cloud engine was chosen but no API key is set.
    MissingApiKey,
    /// The local whisper engine.
    Local,
}

/// Engine `0` is the cloud one, which needs an API key; any other is local.
pub fn plan_transcription(engine: i32, api_key: &str) -> (p: EnginePlan)
    ensures
        p == (if engine == 0 {
            if api_key@.len() == 0 {
                EnginePlan::MissingApiKey
            } else {
                EnginePlan::Cloud
            }
        } else {
            EnginePlan::Local
        }),
{
    if engine == 0 {
        let k = chars_of(api_key);
        if k.len() == 0 {
            EnginePlan::MissingApiKey
        } else {
            EnginePlan::Cloud
        }
    } else {
        EnginePlan::Local
    }
}

/// The number of CPUs that `num_cpus::get` reports.
#[verifier::external_body]
fn available_cpus() -> (n: usize)
    ensures
        n >= 1,
{
    num_cpus::get()
}

/// The threads whisper runs on: one less than the CPUs, at least one.
pub fn threads_for_cpus(cpus: usize) -> (n: i32)
    requires
        cpus as i32 > i32::MIN,
    ensures
        n == thread_formula(cpus),
{
    let c = cpus as i32;
    let m = c - 1;
    if m >= 1 { m } else { 1 }
}

pub open spec fn thread_formula(cpus: usize) -> i32 {
    if cpus as i32 - 1 >= 1 {
        (cpus as i32 - 1) as i32
    } else {
        1
    }
}

/// The CPU count that `num_cpus::get` reports, and the whisper thread
/// count for it: one less, at least one; `None` only where the count does
/// not fit the computation (its `i32` truncation is the smallest `i32`).
pub fn whisper_thread_count() -> (out: (usize, Option<i32>))
    ensures
        out.0 >= 1,
        out.1 == (if out.0 as i32 == i32::MIN {
            None
        } else {
            Some(thread_formula(out.0))
        }),
{
    let cpus = available_cpus();
    if (cpus as i32) == i32::MIN {
        (cpus, None)
    } else {
        (cpus, Some(threads_for_cpus(cpus)))
    }
}

} // verus!
