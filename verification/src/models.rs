//! The model registry, where models are found, and the decisions of downloading, listing,
//! removing and picking models.
//!
//! Which files exist is probed by the caller and handed over as a [`FileProbe`]; the
//! downloads themselves (curl, tar) are the caller's.
use crate::env::{
    join_path, join_path_str, legacy_models_dir_chars, legacy_models_dir_spec, models_dir_chars,
    models_dir_spec, path_join, EnvVars, FileProbe,
};
use crate::text::{
    chars_eq_str, chars_of, decimal, eq_ignore_ascii_case, eq_ignore_ascii_case_chars, pad_right,
    push_all, push_decimal, push_padded_right, push_str_chars, string_from_chars, trim, trim_chars,
};
use crate::ui::{Level, Message};
use vstd::prelude::*;

verus! {

/// A known model: its name, its file name and its approximate size in bytes.
pub struct ModelEntry {
    pub name: String,
    pub file: String,
    pub size: u64,
}

/// The registry: `turbo` and `large-v3`, with their file names and sizes.
pub open spec fn entry_spec(name: Seq<char>) -> Option<(Seq<char>, u64)> {
    if name == "turbo"@ {
        Some(("ggml-large-v3-turbo.bin"@, 1_624_555_275u64))
    } else if name == "large-v3"@ {
        Some(("ggml-large-v3.bin"@, 3_095_033_483u64))
    } else {
        None
    }
}

/// Looks a model name up in the registry.
pub fn entry(name: &str) -> (r: Option<ModelEntry>)
    ensures
        r is None <==> entry_spec(name@) is None,
        r matches Some(m) ==> m.name@ == name@ && entry_spec(name@) == Some((m.file@, m.size)),
{
    let nv = chars_of(name);
    if chars_eq_str(&nv, "turbo") {
        Some(
            ModelEntry {
                name: string_from_chars(&nv),
                file: string_from_chars(&chars_of("ggml-large-v3-turbo.bin")),
                size: 1_624_555_275,
            },
        )
    } else if chars_eq_str(&nv, "large-v3") {
        Some(
            ModelEntry {
                name: string_from_chars(&nv),
                file: string_from_chars(&chars_of("ggml-large-v3.bin")),
                size: 3_095_033_483,
            },
        )
    } else {
        None
    }
}

/// Where a model file is downloaded from.
pub open spec fn url_spec(file: Seq<char>) -> Seq<char> {
    "https://huggingface.co/ggerganov/whisper.cpp/resolve/main/"@ + file
}

/// The download URL of a model file.
pub fn url(filename: &str) -> (r: String)
    ensures
        r@ == url_spec(filename@),
{
    let mut out = chars_of("https://huggingface.co/ggerganov/whisper.cpp/resolve/main/");
    push_str_chars(&mut out, filename);
    string_from_chars(&out)
}

/// Where a known model may be: first the managed directory, then the older one.
pub open spec fn path_candidates_spec(name: Seq<char>, e: &EnvVars) -> Seq<Seq<char>> {
    match entry_spec(name) {
        Some((file, _)) => seq![
            path_join(models_dir_spec(e), file),
            path_join(legacy_models_dir_spec(e), file),
        ],
        None => Seq::empty(),
    }
}

/// The local file of a model: the first candidate that exists; `None` for an unknown name or
/// a model not downloaded.
pub open spec fn path_spec(name: Seq<char>, e: &EnvVars, probe: &FileProbe) -> Option<Seq<char>> {
    let c = path_candidates_spec(name, e);
    if c.len() == 0 {
        None
    } else if probe.has(c[0]) {
        Some(c[0])
    } else if probe.has(c[1]) {
        Some(c[1])
    } else {
        None
    }
}

/// The files whose existence decides `path` (to be probed by the caller).
pub fn path_candidates(name: &str, e: &EnvVars) -> (r: Vec<String>)
    ensures
        r@.len() == path_candidates_spec(name@, e).len(),
        forall|j: int| 0 <= j < r@.len() ==> (#[trigger] r@[j])@ == path_candidates_spec(name@, e)[j],
{
    let mut r: Vec<String> = Vec::new();
    if let Some(m) = entry(name) {
        let f = chars_of(m.file.as_str());
        let a = join_path(models_dir_chars(e).as_slice(), f.as_slice());
        let b = join_path(legacy_models_dir_chars(e).as_slice(), f.as_slice());
        r.push(string_from_chars(&a));
        r.push(string_from_chars(&b));
    }
    r
}

/// The local file of a model, if it is downloaded.
pub fn path(name: &str, e: &EnvVars, probe: &FileProbe) -> (r: Option<String>)
    ensures
        match r {
            Some(p) => path_spec(name@, e, probe) == Some(p@),
            None => path_spec(name@, e, probe) is None,
        },
{
    let c = path_candidates(name, e);
    if c.len() == 0 {
        return None;
    }
    let a = chars_of(c[0].as_str());
    if probe.is_file(a.as_slice()) {
        return Some(string_from_chars(&a));
    }
    let b = chars_of(c[1].as_str());
    if probe.is_file(b.as_slice()) {
        return Some(string_from_chars(&b));
    }
    None
}

/// A model argument names a file itself, or a registered model that is downloaded;
/// `None` means it has to be fetched first.
pub open spec fn resolve_spec(model: Seq<char>, e: &EnvVars, probe: &FileProbe) -> Option<Seq<char>> {
    if probe.has(model) {
        Some(model)
    } else {
        path_spec(model, e, probe)
    }
}

/// Resolves a model argument (a name such as `turbo`, or a path to a `.bin` file) to a local
/// file; `None` when it has to be downloaded first (see `ensure_plan`).
pub fn resolve(model: &str, e: &EnvVars, probe: &FileProbe) -> (r: Option<String>)
    ensures
        match r {
            Some(p) => resolve_spec(model@, e, probe) == Some(p@),
            None => resolve_spec(model@, e, probe) is None,
        },
{
    let mv = chars_of(model);
    if probe.is_file(mv.as_slice()) {
        return Some(string_from_chars(&mv));
    }
    path(model, e, probe)
}

/// A model name that the registry does not know.
pub enum ModelError {
    Unknown,
}

/// What making a model available takes.
pub enum EnsurePlan {
    /// It is already on disk.
    Present(String),
    /// It has to be downloaded from `url` to `dest`; it should be about `size` bytes.
    Download { dest: String, url: String, size: u64 },
}

/// The plan of `ensure`: a downloaded model is used as is; an unknown name is an error;
/// otherwise the model's file is downloaded into the managed directory.
pub fn ensure_plan(name: &str, e: &EnvVars, probe: &FileProbe) -> (r: Result<EnsurePlan, ModelError>)
    ensures
        path_spec(name@, e, probe) matches Some(p) ==> r matches Ok(EnsurePlan::Present(q)) && q@ == p,
        path_spec(name@, e, probe) is None ==> (r is Err <==> entry_spec(name@) is None),
        path_spec(name@, e, probe) is None ==> (r matches Ok(EnsurePlan::Download { dest, url, size })
            ==> (entry_spec(name@) matches Some((file, sz)) && dest@ == path_join(models_dir_spec(e), file)
            && url@ == url_spec(file) && size == sz)),
        r matches Ok(EnsurePlan::Present(_)) ==> path_spec(name@, e, probe) is Some,
{
    if let Some(p) = path(name, e, probe) {
        return Ok(EnsurePlan::Present(p));
    }
    match entry(name) {
        None => Err(ModelError::Unknown),
        Some(m) => {
            let f = chars_of(m.file.as_str());
            let dest = join_path(models_dir_chars(e).as_slice(), f.as_slice());
            Ok(
                EnsurePlan::Download {
                    dest: string_from_chars(&dest),
                    url: url(m.file.as_str()),
                    size: m.size,
                },
            )
        },
    }
}

/// A size in bytes shown in MiB (rounded down).
pub fn size_mb(size: u64) -> (r: u64)
    ensures
        r == size / 1024 / 1024,
{
    size / 1024 / 1024
}

/// Whether a download of `got` bytes is complete for a model of about `expected` bytes:
/// 1% short is tolerated.
pub fn download_complete(expected: u64, got: u64) -> (r: bool)
    requires
        expected <= u64::MAX / 99,
    ensures
        r == !(expected > 0 && got < expected * 99 / 100),
{
    !(expected > 0 && got < expected * 99 / 100)
}

/// Whether the answer to "download now? [Y/n]" declines (a lone `n`, either case).
pub fn declined(answer: &str) -> (r: bool)
    ensures
        r == eq_ignore_ascii_case(trim(answer@), "n"@),
{
    let t = trim_chars(chars_of(answer).as_slice());
    let n = chars_of("n");
    eq_ignore_ascii_case_chars(t.as_slice(), n.as_slice())
}

impl View for Message {
    type V = (Level, Seq<char>);

    open spec fn view(&self) -> (Level, Seq<char>) {
        (self.level, self.text@)
    }
}

/// The status line of one registered model: its file when downloaded, else its size.
pub open spec fn list_entry_spec(name: Seq<char>, e: &EnvVars, probe: &FileProbe) -> (Level, Seq<char>) {
    match path_spec(name, e, probe) {
        Some(p) => (Level::Success, pad_right(name, 9) + " "@ + p),
        None => (
            Level::Dim,
            "⬜ "@ + pad_right(name, 9) + " 未下載（約 "@ + decimal(
                ((entry_spec(name)->0).1 / 1024 / 1024) as nat,
            ) + " MB）"@,
        ),
    }
}

/// The model listing: where models are kept, then one line per registered model.
pub open spec fn list_spec(e: &EnvVars, probe: &FileProbe) -> Seq<(Level, Seq<char>)> {
    seq![
        (Level::Info, "模型狀態（存放："@ + models_dir_spec(e) + "）："@),
        list_entry_spec("turbo"@, e, probe),
        list_entry_spec("large-v3"@, e, probe),
    ]
}

fn list_entry(name: &str, e: &EnvVars, probe: &FileProbe) -> (r: Message)
    requires
        entry_spec(name@) is Some,
    ensures
        r@ == list_entry_spec(name@, e, probe),
{
    let nv = chars_of(name);
    match path(name, e, probe) {
        Some(p) => {
            let mut out: Vec<char> = Vec::new();
            push_padded_right(&mut out, nv.as_slice(), 9);
            push_str_chars(&mut out, " ");
            push_str_chars(&mut out, p.as_str());
            Message { level: Level::Success, text: string_from_chars(&out) }
        },
        None => {
            let m = entry(name);
            let size = match m {
                Some(m) => m.size,
                None => 0,
            };
            let mut out = chars_of("⬜ ");
            push_padded_right(&mut out, nv.as_slice(), 9);
            push_str_chars(&mut out, " 未下載（約 ");
            push_decimal(&mut out, size_mb(size));
            push_str_chars(&mut out, " MB）");
            Message { level: Level::Dim, text: string_from_chars(&out) }
        },
    }
}

/// The model listing (`models list`).
pub fn list(e: &EnvVars, probe: &FileProbe) -> (r: Vec<Message>)
    ensures
        r@.len() == 3,
        forall|j: int| 0 <= j < 3 ==> (#[trigger] r@[j])@ == list_spec(e, probe)[j],
{
    let mut head = chars_of("模型狀態（存放：");
    push_all(&mut head, models_dir_chars(e).as_slice());
    push_str_chars(&mut head, "）：");
    let mut r: Vec<Message> = Vec::new();
    r.push(Message { level: Level::Info, text: string_from_chars(&head) });
    r.push(list_entry("turbo", e, probe));
    r.push(list_entry("large-v3", e, probe));
    r
}

/// The listing agrees with where models are found: the line of each registered model
/// (`turbo` on line 1, `large-v3` on line 2) reports it downloaded exactly when its file is
/// in the managed directory or in the older one, and then shows the file that `path` gives
/// (the managed one first); otherwise the model is reported as not downloaded.
pub proof fn law_list_agrees_with_path(e: &EnvVars, probe: &FileProbe, j: int)
    requires
        0 <= j < 2,
    ensures
        ({
            let name = if j == 0 {
                "turbo"@
            } else {
                "large-v3"@
            };
            let file = (entry_spec(name)->0).0;
            let managed = path_join(models_dir_spec(e), file);
            let legacy = path_join(legacy_models_dir_spec(e), file);
            let line = list_spec(e, probe)[j + 1];
            &&& (line.0 == Level::Success) <==> (probe.has(managed) || probe.has(legacy))
            &&& probe.has(managed) ==> line == (Level::Success, pad_right(name, 9) + " "@ + managed)
            &&& !probe.has(managed) && probe.has(legacy) ==> line == (
                Level::Success,
                pad_right(name, 9) + " "@ + legacy,
            )
            &&& !probe.has(managed) && !probe.has(legacy) ==> line.0 == Level::Dim
            &&& path_spec(name, e, probe) matches Some(p) ==> line == (
                Level::Success,
                pad_right(name, 9) + " "@ + p,
            )
            &&& path_spec(name, e, probe) is None ==> line.0 == Level::Dim
        }),
{
    reveal_strlit("turbo");
    reveal_strlit("large-v3");
    assert("turbo"@.len() != "large-v3"@.len());
}

/// What `models rm` does.
pub enum RemovePlan {
    /// Delete the model file in the managed directory.
    DeleteManaged(String),
    /// The model is only in the older directory, which is left alone; its path is given.
    InLegacy(String),
    /// The model is not downloaded.
    NotDownloaded,
}

/// The plan of `models rm`: only a file in the managed directory is deleted.
pub fn remove_plan(name: &str, e: &EnvVars, probe: &FileProbe) -> (r: Result<RemovePlan, ModelError>)
    ensures
        r is Err <==> entry_spec(name@) is None,
        r matches Ok(RemovePlan::DeleteManaged(p)) ==> p@ == path_candidates_spec(name@, e)[0]
            && probe.has(p@),
        r matches Ok(RemovePlan::InLegacy(p)) ==> p@ == legacy_models_dir_spec(e)
            && !probe.has(path_candidates_spec(name@, e)[0]) && probe.has(path_candidates_spec(name@, e)[1]),
        r matches Ok(RemovePlan::NotDownloaded) ==> !probe.has(path_candidates_spec(name@, e)[0])
            && !probe.has(path_candidates_spec(name@, e)[1]),
        entry_spec(name@) is Some ==> (r matches Ok(RemovePlan::DeleteManaged(_)) <==> probe.has(path_candidates_spec(name@, e)[0])),
        entry_spec(name@) is Some ==> (r matches Ok(RemovePlan::InLegacy(_)) <==> (!probe.has(path_candidates_spec(name@, e)[0]) && probe.has(path_candidates_spec(name@, e)[1]))),
{
    let c = path_candidates(name, e);
    if c.len() == 0 {
        return Err(ModelError::Unknown);
    }
    let a = chars_of(c[0].as_str());
    if probe.is_file(a.as_slice()) {
        return Ok(RemovePlan::DeleteManaged(string_from_chars(&a)));
    }
    let b = chars_of(c[1].as_str());
    if probe.is_file(b.as_slice()) {
        return Ok(RemovePlan::InLegacy(string_from_chars(&legacy_models_dir_chars(e))));
    }
    Ok(RemovePlan::NotDownloaded)
}

/// Where the diarization models live: `<models dir>/diarize`.
pub open spec fn diarize_dir_spec(e: &EnvVars) -> Seq<char> {
    path_join(models_dir_spec(e), "diarize"@)
}

/// The diarization model directory.
pub fn diarize_dir(e: &EnvVars) -> (r: String)
    ensures
        r@ == diarize_dir_spec(e),
{
    string_from_chars(&join_path_str(models_dir_chars(e).as_slice(), "diarize"))
}

/// Both diarization models are present.
pub open spec fn diarize_models_present_spec(e: &EnvVars, probe: &FileProbe) -> bool {
    probe.has(path_join(diarize_dir_spec(e), "segmentation.onnx"@)) && probe.has(
        path_join(diarize_dir_spec(e), "embedding.onnx"@),
    )
}

/// Whether both diarization models (segmentation and embedding) are present.
pub fn diarize_models_present(e: &EnvVars, probe: &FileProbe) -> (r: bool)
    ensures
        r == diarize_models_present_spec(e, probe),
{
    let d = join_path_str(models_dir_chars(e).as_slice(), "diarize");
    let seg = join_path_str(d.as_slice(), "segmentation.onnx");
    let emb = join_path_str(d.as_slice(), "embedding.onnx");
    probe.is_file(seg.as_slice()) && probe.is_file(emb.as_slice())
}

/// The answer to the first-run model menu.
#[derive(Clone, Copy, Debug, PartialEq, Eq)]
pub enum PickerChoice {
    /// 1 (or just Enter): download `turbo` and make it the default.
    Turbo,
    /// 2: download `large-v3` and make it the default.
    LargeV3,
    /// 3: download both; `large-v3` becomes the default.
    Both,
    /// Anything else: nothing now.
    Later,
}

/// The menu choice read from an answer (trimmed): empty or `1`, `2`, `3`, else later.
pub open spec fn picker_choice_spec(answer: Seq<char>) -> PickerChoice {
    let t = trim(answer);
    if t.len() == 0 || t == "1"@ {
        PickerChoice::Turbo
    } else if t == "2"@ {
        PickerChoice::LargeV3
    } else if t == "3"@ {
        PickerChoice::Both
    } else {
        PickerChoice::Later
    }
}

/// Reads the first-run model menu answer.
pub fn picker_choice(answer: &str) -> (r: PickerChoice)
    ensures
        r == picker_choice_spec(answer@),
{
    let t = trim_chars(chars_of(answer).as_slice());
    if t.len() == 0 || chars_eq_str(&t, "1") {
        PickerChoice::Turbo
    } else if chars_eq_str(&t, "2") {
        PickerChoice::LargeV3
    } else if chars_eq_str(&t, "3") {
        PickerChoice::Both
    } else {
        PickerChoice::Later
    }
}

/// The menu is shown only when neither registered model is downloaded; otherwise the
/// listing is.
pub fn picker_needed(e: &EnvVars, probe: &FileProbe) -> (r: bool)
    ensures
        r == (path_spec("turbo"@, e, probe) is None && path_spec("large-v3"@, e, probe) is None),
{
    path("turbo", e, probe).is_none() && path("large-v3", e, probe).is_none()
}

/// A model downloaded by `ensure` is found afterwards: the download destination is the first
/// place `path` looks, so once that file exists `path` (and `resolve`, unless a file is named
/// like the model itself) gives it.
pub proof fn law_download_destination_is_found(name: Seq<char>, e: &EnvVars, probe: &FileProbe)
    requires
        entry_spec(name) is Some,
        probe.has(path_join(models_dir_spec(e), (entry_spec(name)->0).0)),
    ensures
        path_spec(name, e, probe) == Some(path_join(models_dir_spec(e), (entry_spec(name)->0).0)),
        !probe.has(name) ==> resolve_spec(name, e, probe) == path_spec(name, e, probe),
{
}

} // verus!
