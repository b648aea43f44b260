//! What the window remembers between actions: the settings, the recording
//! being worked on, its last transcription and the update on offer.
use vstd::prelude::*;

use crate::config::AppConfig;
use crate::recordings::RecordingRow;
use crate::strings::{chars_of, joined};
use crate::transcription::{
    display_segments, display_view, filter_segments, saved_text_segments, search_result,
    segment_timestamp, segments_texts, sentences, full_text, unknown_timestamp, DisplaySegment,
    TranscriptionSegment,
};

verus! {

pub struct AppState {
    pub config: AppConfig,
    pub current_recording_id: Option<i64>,
    pub current_recording_path: Option<String>,
    pub last_transcription_text: Option<String>,
    pub last_transcription_segments: Vec<DisplaySegment>,
    pub update_url: String,
}

pub open spec fn opt_view(s: Option<String>) -> Option<Seq<char>> {
    match s {
        Some(t) => Some(t@),
        None => None,
    }
}

fn clone_opt(s: &Option<String>) -> (out: Option<String>)
    ensures
        opt_view(out) == opt_view(*s),
{
    match s {
        Some(t) => Some(t.clone()),
        None => None,
    }
}

impl AppState {
    /// The state when the window opens: nothing recorded, transcribed or
    /// offered yet.
    pub fn new(config: AppConfig) -> (s: AppState)
        ensures
            s.config == config,
            s.current_recording_id is None,
            s.current_recording_path is None,
            s.last_transcription_text is None,
            s.last_transcription_segments@.len() == 0,
            s.update_url@.len() == 0,
    {
        AppState {
            config,
            current_recording_id: None,
            current_recording_path: None,
            last_transcription_text: None,
            last_transcription_segments: Vec::new(),
            update_url: String::new(),
        }
    }

    /// A new recording was started, written to `file_path` and stored in
    /// the history under `id` (`None` where storing it failed).
    pub fn begin_recording(&mut self, file_path: String, id: Option<i64>)
        ensures
            final(self).current_recording_path == Some(file_path),
            final(self).current_recording_id == id,
            final(self).config == old(self).config,
            final(self).last_transcription_text == old(self).last_transcription_text,
            final(self).last_transcription_segments == old(self).last_transcription_segments,
            final(self).update_url == old(self).update_url,
    {
        self.current_recording_path = Some(file_path);
        self.current_recording_id = id;
    }

    /// An audio file outside the history was opened: it becomes the file
    /// to transcribe, with no history row.
    pub fn open_external_file(&mut self, file_path: String)
        ensures
            final(self).current_recording_path == Some(file_path),
            final(self).current_recording_id is None,
            final(self).config == old(self).config,
            final(self).last_transcription_text == old(self).last_transcription_text,
            final(self).last_transcription_segments == old(self).last_transcription_segments,
            final(self).update_url == old(self).update_url,
    {
        self.current_recording_path = Some(file_path);
        self.current_recording_id = None;
    }

    /// The file that a transcription would read, if there is one.
    pub fn transcription_source(&self) -> (out: Option<String>)
        ensures
            opt_view(out) == opt_view(self.current_recording_path),
    {
        clone_opt(&self.current_recording_path)
    }

    /// A transcription finished with `segments`: their joined text and
    /// their display form become the last transcription. Returns the
    /// history row to store the text under (the current one, if any) and
    /// the text.
    pub fn record_transcription(&mut self, segments: &Vec<TranscriptionSegment>) -> (out: (Option<i64>, String))
        ensures
            out.0 == old(self).current_recording_id,
            out.1@ == joined(segments_texts(segments@), seq![' ']),
            opt_view(final(self).last_transcription_text) == Some(out.1@),
            final(self).last_transcription_segments@.len() == segments@.len(),
            forall|i: int|
                0 <= i < segments@.len() ==> (#[trigger] final(self).last_transcription_segments@[i]).timestamp@
                    == segment_timestamp(segments@[i].start_ms)
                    && final(self).last_transcription_segments@[i].text@ == segments@[i].text@,
            final(self).config == old(self).config,
            final(self).current_recording_id == old(self).current_recording_id,
            final(self).current_recording_path == old(self).current_recording_path,
            final(self).update_url == old(self).update_url,
    {
        let text = full_text(segments);
        let shown = display_segments(segments);
        let stored = text.clone();
        self.last_transcription_text = Some(text);
        self.last_transcription_segments = shown;
        (self.current_recording_id, stored)
    }

    /// A recording was picked from the history: it becomes the current
    /// one, its saved text (if any) the last transcription text. Returns
    /// the segments to show: the sentences of the saved text, each with
    /// the unknown timestamp, none where there is no text.
    pub fn select_recording(&mut self, row: &RecordingRow) -> (shown: Vec<DisplaySegment>)
        ensures
            final(self).current_recording_id == Some(row.id),
            opt_view(final(self).current_recording_path) == Some(row.file_path@),
            opt_view(final(self).last_transcription_text) == opt_view(row.transcription_text),
            match row.transcription_text {
                Some(t) => shown@.len() == sentences(t@).len() && forall|i: int|
                    0 <= i < shown@.len() ==> (#[trigger] shown@[i]).timestamp@ == unknown_timestamp()
                        && shown@[i].text@ == sentences(t@)[i],
                None => shown@.len() == 0,
            },
            final(self).config == old(self).config,
            final(self).last_transcription_segments == old(self).last_transcription_segments,
            final(self).update_url == old(self).update_url,
    {
        self.current_recording_id = Some(row.id);
        self.current_recording_path = Some(row.file_path.clone());
        self.last_transcription_text = clone_opt(&row.transcription_text);
        match &row.transcription_text {
            Some(t) => saved_text_segments(t.as_str()),
            None => Vec::new(),
        }
    }

    /// The text to copy to the clipboard: the last transcription, if any.
    pub fn text_to_copy(&self) -> (out: Option<String>)
        ensures
            opt_view(out) == opt_view(self.last_transcription_text),
    {
        clone_opt(&self.last_transcription_text)
    }

    /// What exporting writes: the last transcription text and the file it
    /// belongs to, only where both are known.
    pub fn export_request(&self) -> (out: Option<(String, String)>)
        ensures
            out is Some <==> self.last_transcription_text is Some && self.current_recording_path is Some,
            out matches Some(p) ==> Some(p.0@) == opt_view(self.last_transcription_text) && Some(p.1@)
                == opt_view(self.current_recording_path),
    {
        match (&self.last_transcription_text, &self.current_recording_path) {
            (Some(t), Some(p)) => Some((t.clone(), p.clone())),
            _ => None,
        }
    }

    /// The segments of the last transcription that a search for `search`
    /// keeps (see `search_result`).
    pub fn search(&self, search: &str) -> (out: Vec<DisplaySegment>)
        ensures
            display_view(out@) == display_view(search_result(self.last_transcription_segments@, search@)),
    {
        filter_segments(&self.last_transcription_segments, search)
    }

    /// A newer release was found, installed from `url`.
    pub fn offer_update(&mut self, url: String)
        ensures
            final(self).update_url == url,
            final(self).config == old(self).config,
            final(self).current_recording_id == old(self).current_recording_id,
            final(self).current_recording_path == old(self).current_recording_path,
            final(self).last_transcription_text == old(self).last_transcription_text,
            final(self).last_transcription_segments == old(self).last_transcription_segments,
    {
        self.update_url = url;
    }

    /// The installer to download when the user accepts the update: the
    /// offered address, where one was found.
    pub fn update_to_install(&self) -> (out: Option<String>)
        ensures
            out is Some <==> self.update_url@.len() > 0,
            out matches Some(u) ==> u@ == self.update_url@,
    {
        let cs = chars_of(self.update_url.as_str());
        if cs.len() == 0 {
            None
        } else {
            Some(self.update_url.clone())
        }
    }

    /// The settings entered in the settings page replace the current ones
    /// (the models folder is kept).
    pub fn apply_settings(&mut self, engine: i32, model_index: i32, api_key: String, output_dir: String)
        ensures
            final(self).config.engine == engine,
            final(self).config.model_index == model_index,
            final(self).config.api_key == api_key,
            final(self).config.output_dir == output_dir,
            final(self).config.models_dir == old(self).config.models_dir,
            final(self).current_recording_id == old(self).current_recording_id,
            final(self).current_recording_path == old(self).current_recording_path,
            final(self).last_transcription_text == old(self).last_transcription_text,
            final(self).last_transcription_segments == old(self).last_transcription_segments,
            final(self).update_url == old(self).update_url,
    {
        self.config.engine = engine;
        self.config.model_index = model_index;
        self.config.api_key = api_key;
        self.config.output_dir = output_dir;
    }

    /// A new output folder was picked.
    pub fn set_output_dir(&mut self, output_dir: String)
        ensures
            final(self).config.output_dir == output_dir,
            final(self).config.engine == old(self).config.engine,
            final(self).config.model_index == old(self).config.model_index,
            final(self).config.api_key == old(self).config.api_key,
            final(self).config.models_dir == old(self).config.models_dir,
            final(self).current_recording_id == old(self).current_recording_id,
            final(self).current_recording_path == old(self).current_recording_path,
            final(self).last_transcription_text == old(self).last_transcription_text,
            final(self).last_transcription_segments == old(self).last_transcription_segments,
            final(self).update_url == old(self).update_url,
    {
        self.config.output_dir = output_dir;
    }
}

} // verus!
