//! Which whisper model files to look for, and the order in which a model
//! is looked up locally and then downloaded.
use vstd::prelude::*;

use crate::strings::{chars_of, texts_view};
use vstd::string::StringExecFns;

verus! {

pub open spec fn large_variants() -> Seq<Seq<char>> {
    seq![
        "ggml-large-v3-turbo.bin"@,
        "ggml-large-v3.bin"@,
        "ggml-large-v2.bin"@,
        "ggml-large-v1.bin"@,
    ]
}

/// The model files that stand for a model name, most preferred first:
/// `ggml-<name>.bin`, except for `large`, which has four variants.
pub open spec fn model_filenames(model_name: Seq<char>) -> Seq<Seq<char>> {
    if model_name == "large"@ {
        large_variants()
    } else {
        seq!["ggml-"@ + model_name + ".bin"@]
    }
}

/// Where a model file is published.
pub open spec fn model_url(filename: Seq<char>) -> Seq<char> {
    "https://huggingface.co/ggerganov/whisper.cpp/resolve/main/"@ + filename
}

/// The model files to look for, most preferred first.
pub fn get_model_filenames(model_name: &str) -> (out: Vec<String>)
    ensures
        texts_view(out@) == model_filenames(model_name@),
{
    if crate::strings::str_equal(model_name, "large") {
        let mut v: Vec<String> = Vec::new();
        v.push(String::from_str("ggml-large-v3-turbo.bin"));
        v.push(String::from_str("ggml-large-v3.bin"));
        v.push(String::from_str("ggml-large-v2.bin"));
        v.push(String::from_str("ggml-large-v1.bin"));
        assert(texts_view(v@) =~= large_variants());
        v
    } else {
        let mut name = String::from_str("ggml-");
        name.append(model_name);
        name.append(".bin");
        let mut v: Vec<String> = Vec::new();
        v.push(name);
        assert(texts_view(v@) =~= model_filenames(model_name@));
        v
    }
}

/// The address a model file is downloaded from.
pub fn model_download_url(filename: &str) -> (out: String)
    ensures
        out@ == model_url(filename@),
{
    let mut url = String::from_str("https://huggingface.co/ggerganov/whisper.cpp/resolve/main/");
    url.append(filename);
    url
}

/// The message given when no variant of a model could be had.
pub fn unavailable_message(model_name: &str) -> (out: String)
    ensures
        out@ == "Nenhuma variantedo modelo '"@ + model_name@
            + "' esta disponivel. Tente outro modelo (tiny, base, small, medium)."@,
{
    let mut s = String::from_str("Nenhuma variantedo modelo '");
    s.append(model_name);
    s.append("' esta disponivel. Tente outro modelo (tiny, base, small, medium).");
    s
}

/// What the model lookup does next.
#[derive(Debug, Clone, Copy, PartialEq, Eq, Structural)]
pub enum FetchStep {
    /// See whether the file of this index is already in the models folder.
    CheckLocal(usize),
    /// Create the models folder.
    CreateDir,
    /// Download the file of this index.
    Download(usize),
    /// Use the file of this index, found in the folder.
    UseExisting(usize),
    /// Use the file of this index, just downloaded.
    UseDownloaded(usize),
    /// The models folder could not be created.
    DirFailed,
    /// No variant could be downloaded.
    Unavailable,
}

/// The outcomes seen so far: whether each file was found locally, whether
/// the folder was created, whether each download succeeded.
pub struct FetchHistory {
    pub found: Seq<bool>,
    pub dir_created: Option<bool>,
    pub downloaded: Seq<bool>,
}

pub open spec fn first_true(s: Seq<bool>) -> Option<int> {
    if exists|i: int| 0 <= i < s.len() && s[i] {
        Some(choose|i: int| 0 <= i < s.len() && s[i] && forall|j: int| 0 <= j < i ==> !s[j])
    } else {
        None
    }
}

/// The next step, given the number of files and the outcomes so far:
/// local files are checked in order and the first found is used; only
/// when none is found is the folder created and are the files downloaded,
/// in order, the first success being used.
pub open spec fn next_step(n: nat, h: FetchHistory) -> FetchStep {
    match first_true(h.found) {
        Some(i) => FetchStep::UseExisting(i as usize),
        None => if h.found.len() < n {
            FetchStep::CheckLocal(h.found.len() as usize)
        } else {
            match h.dir_created {
                None => FetchStep::CreateDir,
                Some(false) => FetchStep::DirFailed,
                Some(true) => match first_true(h.downloaded) {
                    Some(i) => FetchStep::UseDownloaded(i as usize),
                    None => if h.downloaded.len() < n {
                        FetchStep::Download(h.downloaded.len() as usize)
                    } else {
                        FetchStep::Unavailable
                    },
                },
            }
        },
    }
}

/// The step, in the state machine's own terms.
enum Stage {
    Local(usize),
    Existing(usize),
    MakeDir,
    NoDir,
    Remote(usize),
    Downloaded(usize),
    Exhausted,
}

/// The state of one model lookup: the candidate files and the outcomes
/// reported so far.
pub struct ModelFetch {
    filenames: Vec<String>,
    stage: Stage,
    history: Ghost<FetchHistory>,
}

impl ModelFetch {
    pub closed spec fn history(&self) -> FetchHistory {
        self.history@
    }

    /// The candidate files, most preferred first.
    pub closed spec fn files(&self) -> Seq<Seq<char>> {
        texts_view(self.filenames@)
    }

    /// The candidate file of index `i`.
    pub fn filename(&self, i: usize) -> (out: &str)
        requires
            i < self.files().len(),
        ensures
            out@ == self.files()[i as int],
    {
        self.filenames[i].as_str()
    }

    pub closed spec fn wf(&self) -> bool {
        let h = self.history@;
        let n = self.filenames.len();
        &&& n >= 1
        &&& h.found.len() <= n
        &&& h.downloaded.len() <= n
        &&& match self.stage {
            Stage::Local(i) => i < n && h.found.len() == i && (forall|j: int|
                0 <= j < i ==> !h.found[j]) && h.dir_created is None && h.downloaded.len() == 0,
            Stage::Existing(i) => i < n && h.found.len() == i + 1 && h.found[i as int] && (forall|
                j: int|
                0 <= j < i ==> !h.found[j]),
            Stage::MakeDir => h.found.len() == n && (forall|j: int| 0 <= j < n ==> !h.found[j])
                && h.dir_created is None && h.downloaded.len() == 0,
            Stage::NoDir => h.found.len() == n && (forall|j: int| 0 <= j < n ==> !h.found[j])
                && h.dir_created == Some(false),
            Stage::Remote(i) => i < n && h.found.len() == n && (forall|j: int|
                0 <= j < n ==> !h.found[j]) && h.dir_created == Some(true) && h.downloaded.len()
                == i && (forall|j: int| 0 <= j < i ==> !h.downloaded[j]),
            Stage::Downloaded(i) => i < n && h.found.len() == n && (forall|j: int|
                0 <= j < n ==> !h.found[j]) && h.dir_created == Some(true) && h.downloaded.len()
                == i + 1 && h.downloaded[i as int] && (forall|j: int| 0 <= j < i ==> !h.downloaded[j]),
            Stage::Exhausted => h.found.len() == n && (forall|j: int| 0 <= j < n ==> !h.found[j])
                && h.dir_created == Some(true) && h.downloaded.len() == n && (forall|j: int|
                0 <= j < n ==> !h.downloaded[j]),
        }
    }

    /// Starts a lookup of the model `model_name`, with nothing seen yet.
    pub fn new(model_name: &str) -> (out: ModelFetch)
        ensures
            out.wf(),
            out.files() == model_filenames(model_name@),
            out.history() == (FetchHistory { found: Seq::empty(), dir_created: None, downloaded: Seq::empty() }),
    {
        let filenames = get_model_filenames(model_name);
        assert(model_filenames(model_name@).len() >= 1);
        assert(filenames@.len() == texts_view(filenames@).len());
        ModelFetch {
            filenames,
            stage: Stage::Local(0),
            history: Ghost(FetchHistory { found: Seq::empty(), dir_created: None, downloaded: Seq::empty() }),
        }
    }

    /// The next step of the lookup.
    pub fn step(&self) -> (s: FetchStep)
        requires
            self.wf(),
        ensures
            s == next_step(self.files().len(), self.history()),
            1 <= self.files().len() <= usize::MAX,
            self.history().found.len() <= self.files().len(),
            self.history().downloaded.len() <= self.files().len(),
            s matches FetchStep::CheckLocal(i) ==> i < self.files().len(),
            s matches FetchStep::UseExisting(i) ==> i < self.files().len(),
            s matches FetchStep::Download(i) ==> i < self.files().len(),
            s matches FetchStep::UseDownloaded(i) ==> i < self.files().len(),
    {
        let ghost h = self.history@;
        match self.stage {
            Stage::Local(i) => {
                assert(first_true(h.found) is None);
                FetchStep::CheckLocal(i)
            },
            Stage::Existing(i) => {
                assert(exists|k: int| 0 <= k < h.found.len() && h.found[k] && forall|j: int| 0 <= j < k ==> !h.found[j]);
                let ghost c = choose|k: int| 0 <= k < h.found.len() && h.found[k] && forall|j: int| 0 <= j < k ==> !h.found[j];
                assert(c == i);
                FetchStep::UseExisting(i)
            },
            Stage::MakeDir => FetchStep::CreateDir,
            Stage::NoDir => FetchStep::DirFailed,
            Stage::Remote(i) => {
                assert(first_true(h.downloaded) is None);
                FetchStep::Download(i)
            },
            Stage::Downloaded(i) => {
                assert(exists|k: int| 0 <= k < h.downloaded.len() && h.downloaded[k] && forall|j: int| 0 <= j < k ==> !h.downloaded[j]);
                let ghost c = choose|k: int| 0 <= k < h.downloaded.len() && h.downloaded[k] && forall|j: int| 0 <= j < k ==> !h.downloaded[j];
                assert(c == i);
                FetchStep::UseDownloaded(i)
            },
            Stage::Exhausted => {
                assert(first_true(h.downloaded) is None);
                FetchStep::Unavailable
            },
        }
    }

    /// Reports whether the file that `CheckLocal` named exists.
    pub fn report_local(&mut self, exists: bool)
        requires
            old(self).wf(),
            next_step(old(self).files().len(), old(self).history()) is CheckLocal,
        ensures
            final(self).wf(),
            final(self).files() == old(self).files(),
            final(self).history() == (FetchHistory { found: old(self).history().found.push(exists), ..old(self).history() }),
    {
        let ghost h = self.history@;
        match self.stage {
            Stage::Local(i) => {
                let ghost nh = FetchHistory { found: h.found.push(exists), ..h };
                if exists {
                    self.stage = Stage::Existing(i);
                } else if i + 1 < self.filenames.len() {
                    self.stage = Stage::Local(i + 1);
                } else {
                    self.stage = Stage::MakeDir;
                }
                self.history = Ghost(nh);
            },
            _ => {
                assert(false);
            },
        }
    }

    /// Reports whether the models folder was created.
    pub fn report_dir(&mut self, created: bool)
        requires
            old(self).wf(),
            next_step(old(self).files().len(), old(self).history()) is CreateDir,
        ensures
            final(self).wf(),
            final(self).files() == old(self).files(),
            final(self).history() == (FetchHistory { dir_created: Some(created), ..old(self).history() }),
    {
        let ghost h = self.history@;
        match self.stage {
            Stage::MakeDir => {
                let ghost nh = FetchHistory { dir_created: Some(created), ..h };
                if created {
                    self.stage = Stage::Remote(0);
                } else {
                    self.stage = Stage::NoDir;
                }
                self.history = Ghost(nh);
            },
            _ => {
                assert(false);
            },
        }
    }

    /// Reports whether the download that `Download` named succeeded.
    pub fn report_download(&mut self, ok: bool)
        requires
            old(self).wf(),
            next_step(old(self).files().len(), old(self).history()) is Download,
        ensures
            final(self).wf(),
            final(self).files() == old(self).files(),
            final(self).history() == (FetchHistory { downloaded: old(self).history().downloaded.push(ok), ..old(self).history() }),
    {
        let ghost h = self.history@;
        match self.stage {
            Stage::Remote(i) => {
                let ghost nh = FetchHistory { downloaded: h.downloaded.push(ok), ..h };
                if ok {
                    self.stage = Stage::Downloaded(i);
                } else if i + 1 < self.filenames.len() {
                    self.stage = Stage::Remote(i + 1);
                } else {
                    self.stage = Stage::Exhausted;
                }
                self.history = Ghost(nh);
            },
            _ => {
                assert(false);
            },
        }
    }
}

/// A model found in the folder is used without any download: once some
/// file is reported present, the lookup uses the first such file and never
/// creates the folder or downloads.
pub proof fn law_local_model_wins(n: nat, h: FetchHistory, i: int)
    requires
        n <= usize::MAX,
        h.found.len() <= n,
        0 <= i < h.found.len(),
        h.found[i],
    ensures
        next_step(n, h) is UseExisting,
        (next_step(n, h)->UseExisting_0 as int) <= i,
        h.found[next_step(n, h)->UseExisting_0 as int],
{
    assert(exists|k: int| 0 <= k < h.found.len() && h.found[k] && forall|j: int| 0 <= j < k ==> !h.found[j]) by {
        lemma_first_true_exists(h.found, i);
    }
}

proof fn lemma_first_true_exists(s: Seq<bool>, i: int)
    requires
        0 <= i < s.len(),
        s[i],
    ensures
        exists|k: int| 0 <= k <= i && s[k] && forall|j: int| 0 <= j < k ==> !s[j],
    decreases i,
{
    if exists|j: int| 0 <= j < i && s[j] {
        let j = choose|j: int| 0 <= j < i && s[j];
        lemma_first_true_exists(s, j);
    } else {
        assert(forall|j: int| 0 <= j < i ==> !s[j]);
    }
}

/// Downloads happen only after every file was looked for and none found,
/// and only once the folder exists; they go through the files in order.
pub proof fn law_download_only_when_missing(n: nat, h: FetchHistory)
    requires
        n <= usize::MAX,
        next_step(n, h) is Download,
    ensures
        h.found.len() >= n,
        forall|j: int| 0 <= j < h.found.len() ==> !h.found[j],
        h.dir_created == Some(true),
        next_step(n, h)->Download_0 as int == h.downloaded.len(),
        forall|j: int| 0 <= j < h.downloaded.len() ==> !h.downloaded[j],
{
    if exists|j: int| 0 <= j < h.found.len() && h.found[j] {
        let j = choose|j: int| 0 <= j < h.found.len() && h.found[j];
        lemma_first_true_exists(h.found, j);
    }
    if exists|j: int| 0 <= j < h.downloaded.len() && h.downloaded[j] {
        let j = choose|j: int| 0 <= j < h.downloaded.len() && h.downloaded[j];
        lemma_first_true_exists(h.downloaded, j);
    }
}

/// A model is declared unavailable only after every file was looked for
/// and missing, the folder was created, and every download failed.
pub proof fn law_unavailable_only_after_all_failed(n: nat, h: FetchHistory)
    requires
        n <= usize::MAX,
        next_step(n, h) is Unavailable,
    ensures
        h.found.len() >= n,
        forall|j: int| 0 <= j < h.found.len() ==> !h.found[j],
        h.dir_created == Some(true),
        h.downloaded.len() >= n,
        forall|j: int| 0 <= j < h.downloaded.len() ==> !h.downloaded[j],
{
    if exists|j: int| 0 <= j < h.found.len() && h.found[j] {
        let j = choose|j: int| 0 <= j < h.found.len() && h.found[j];
        lemma_first_true_exists(h.found, j);
    }
    if exists|j: int| 0 <= j < h.downloaded.len() && h.downloaded[j] {
        let j = choose|j: int| 0 <= j < h.downloaded.len() && h.downloaded[j];
        lemma_first_true_exists(h.downloaded, j);
    }
}

} // verus!
