//! The application's settings, and how they are written to and read back
//! from the key/value settings table.
use vstd::prelude::*;

use crate::numbers::{format_i32, parse_i32, signed_decimal, spec_parse_i32, lemma_parse_i32_of_decimal};

verus! {

#[derive(Debug, Clone)]
pub struct AppConfig {
    /// 0 = Cloud (OpenAI), 1 = Local (Whisper)
    pub engine: i32,
    /// Index of the local model: 0=tiny, 1=base, 2=small, 3=medium, 4=large
    pub model_index: i32,
    /// OpenAI API key
    pub api_key: String,
    /// Folder where recordings are written
    pub output_dir: String,
    /// Folder of the whisper models
    pub models_dir: String,
}

/// The engine used where none is stored: the cloud one.
pub const DEFAULT_ENGINE: i32 = 0;

/// The model used where none is stored: `small`.
pub const DEFAULT_MODEL_INDEX: i32 = 2;

pub open spec fn engine_key() -> Seq<char> {
    seq!['e', 'n', 'g', 'i', 'n', 'e']
}

pub open spec fn model_index_key() -> Seq<char> {
    seq!['m', 'o', 'd', 'e', 'l', '_', 'i', 'n', 'd', 'e', 'x']
}

pub open spec fn api_key_key() -> Seq<char> {
    seq!['a', 'p', 'i', '_', 'k', 'e', 'y']
}

pub open spec fn output_dir_key() -> Seq<char> {
    seq!['o', 'u', 't', 'p', 'u', 't', '_', 'd', 'i', 'r']
}

/// The name of the local model that `model_index` selects (`small` for an
/// unknown index).
pub open spec fn model_name_of(model_index: i32) -> Seq<char> {
    if model_index == 0 {
        "tiny"@
    } else if model_index == 1 {
        "base"@
    } else if model_index == 2 {
        "small"@
    } else if model_index == 3 {
        "medium"@
    } else if model_index == 4 {
        "large"@
    } else {
        "small"@
    }
}

/// A stored integer setting: its parsed value, or `default` where it is
/// absent or not an `i32`.
pub open spec fn stored_int(stored: Option<Seq<char>>, default: i32) -> i32 {
    match stored {
        Some(text) => match spec_parse_i32(text) {
            Some(v) => v,
            None => default,
        },
        None => default,
    }
}

pub open spec fn stored_text(stored: Option<Seq<char>>, default: Seq<char>) -> Seq<char> {
    match stored {
        Some(text) => text,
        None => default,
    }
}

pub open spec fn view_opt(s: Option<String>) -> Option<Seq<char>> {
    match s {
        Some(t) => Some(t@),
        None => None,
    }
}

/// The settings entries that saving writes, in order: each key with the
/// text stored under it.
pub open spec fn entries_of(engine: i32, model_index: i32, api_key: Seq<char>, output_dir: Seq<char>) -> Seq<(Seq<char>, Seq<char>)> {
    seq![
        (engine_key(), signed_decimal(engine as int)),
        (model_index_key(), signed_decimal(model_index as int)),
        (api_key_key(), api_key),
        (output_dir_key(), output_dir),
    ]
}

pub open spec fn entries_view(v: Seq<(String, String)>) -> Seq<(Seq<char>, Seq<char>)> {
    Seq::new(v.len(), |i: int| (v[i].0@, v[i].1@))
}

fn key_string(cs: &[char]) -> (out: String)
    ensures
        out@ == cs@,
{
    crate::strings::string_of(cs)
}

fn parse_or(stored: &Option<String>, default: i32) -> (v: i32)
    ensures
        v == stored_int(view_opt(*stored), default),
{
    match stored {
        Some(text) => match parse_i32(text.as_str()) {
            Some(v) => v,
            None => default,
        },
        None => default,
    }
}

impl AppConfig {
    /// The settings as loading builds them from the stored values: each
    /// integer parsed, with its default where it is absent or not a number;
    /// an absent key gives an empty API key; an absent folder gives
    /// `default_output_dir`. The models folder is always `models_dir`.
    pub fn from_stored(
        engine: Option<String>,
        model_index: Option<String>,
        api_key: Option<String>,
        output_dir: Option<String>,
        default_output_dir: String,
        models_dir: String,
    ) -> (cfg: AppConfig)
        ensures
            cfg.engine == stored_int(view_opt(engine), DEFAULT_ENGINE),
            cfg.model_index == stored_int(view_opt(model_index), DEFAULT_MODEL_INDEX),
            cfg.api_key@ == stored_text(view_opt(api_key), Seq::empty()),
            cfg.output_dir@ == stored_text(view_opt(output_dir), default_output_dir@),
            cfg.models_dir@ == models_dir@,
    {
        let engine_v = parse_or(&engine, DEFAULT_ENGINE);
        let model_v = parse_or(&model_index, DEFAULT_MODEL_INDEX);
        let key = match api_key {
            Some(k) => k,
            None => String::new(),
        };
        let out = match output_dir {
            Some(d) => d,
            None => default_output_dir,
        };
        AppConfig {
            engine: engine_v,
            model_index: model_v,
            api_key: key,
            output_dir: out,
            models_dir,
        }
    }

    /// The entries that saving writes to the settings table, in order.
    pub fn stored_entries(&self) -> (out: Vec<(String, String)>)
        ensures
            entries_view(out@) == entries_of(
                self.engine,
                self.model_index,
                self.api_key@,
                self.output_dir@,
            ),
    {
        let mut out: Vec<(String, String)> = Vec::new();
        let k1: [char; 6] = ['e', 'n', 'g', 'i', 'n', 'e'];
        let k2: [char; 11] = ['m', 'o', 'd', 'e', 'l', '_', 'i', 'n', 'd', 'e', 'x'];
        let k3: [char; 7] = ['a', 'p', 'i', '_', 'k', 'e', 'y'];
        let k4: [char; 10] = ['o', 'u', 't', 'p', 'u', 't', '_', 'd', 'i', 'r'];
        assert(k1@ =~= engine_key());
        assert(k2@ =~= model_index_key());
        assert(k3@ =~= api_key_key());
        assert(k4@ =~= output_dir_key());
        out.push((key_string(&k1), format_i32(self.engine)));
        out.push((key_string(&k2), format_i32(self.model_index)));
        out.push((key_string(&k3), self.api_key.clone()));
        out.push((key_string(&k4), self.output_dir.clone()));
        assert(entries_view(out@) =~= entries_of(
            self.engine,
            self.model_index,
            self.api_key@,
            self.output_dir@,
        ));
        out
    }

    /// The name of the selected local model.
    pub fn model_name(&self) -> (name: &'static str)
        ensures
            name@ == model_name_of(self.model_index),
    {
        match self.model_index {
            0 => "tiny",
            1 => "base",
            2 => "small",
            3 => "medium",
            4 => "large",
            _ => "small",
        }
    }
}

/// The model indices in order are tiny, base, small, medium and large;
/// the default index and every unknown index name `small`.
pub proof fn law_model_names(i: i32)
    ensures
        model_name_of(0) == "tiny"@,
        model_name_of(1) == "base"@,
        model_name_of(2) == "small"@,
        model_name_of(3) == "medium"@,
        model_name_of(4) == "large"@,
        model_name_of(DEFAULT_MODEL_INDEX) == "small"@,
        (i < 0 || i > 4) ==> model_name_of(i) == "small"@,
{
}

/// With nothing stored, the model looked up is `ggml-small.bin`.
pub proof fn law_default_model_file()
    ensures
        crate::models::model_filenames(model_name_of(stored_int(None, DEFAULT_MODEL_INDEX)))
            == seq!["ggml-small.bin"@],
{
    reveal_strlit("small");
    reveal_strlit("large");
    reveal_strlit("ggml-");
    reveal_strlit(".bin");
    reveal_strlit("ggml-small.bin");
    assert("small"@ != "large"@) by {
        assert("small"@[0] != "large"@[0]);
    }
    assert("ggml-"@ + "small"@ + ".bin"@ =~= "ggml-small.bin"@);
}

/// Reading back what was saved: loading from the entries that saving
/// writes gives back the engine, model, API key and output folder.
pub proof fn law_save_then_load(
    engine: i32,
    model_index: i32,
    api_key: Seq<char>,
    output_dir: Seq<char>,
    default_output_dir: Seq<char>,
)
    ensures
        ({
            let e = entries_of(engine, model_index, api_key, output_dir);
            &&& e[0].0 == engine_key() && e[1].0 == model_index_key()
            &&& e[2].0 == api_key_key() && e[3].0 == output_dir_key()
            &&& stored_int(Some(e[0].1), DEFAULT_ENGINE) == engine
            &&& stored_int(Some(e[1].1), DEFAULT_MODEL_INDEX) == model_index
            &&& stored_text(Some(e[2].1), Seq::empty()) == api_key
            &&& stored_text(Some(e[3].1), default_output_dir) == output_dir
        }),
{
    lemma_parse_i32_of_decimal(engine);
    lemma_parse_i32_of_decimal(model_index);
}

} // verus!
