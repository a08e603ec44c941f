//! Paths, the environment variables the tool reads, command lookup and thread count.
//!
//! The process environment and the file system are read by the caller; this module takes
//! what was read as plain values ([`EnvVars`], [`FileProbe`]) and computes from them.
use crate::text::{
    chars_eq, chars_of, parse_i32, parse_i32_chars, push_all, split_chars, split_on, string_from_chars,
    sub_chars, trim, trim_chars,
};
use vstd::prelude::*;

verus! {

/// The environment variables the tool consults, as read from the process environment
/// (`None` when unset).
pub struct EnvVars {
    /// `HOME`
    pub home: Option<String>,
    /// `TW_HOME`: overrides the data directory.
    pub tw_home: Option<String>,
    /// `XDG_CONFIG_HOME`
    pub xdg_config_home: Option<String>,
    /// `PATH`
    pub path: Option<String>,
}

/// The regular files known to exist, as found by probing the file system.
pub struct FileProbe {
    pub files: Vec<String>,
}

impl FileProbe {
    /// Whether `p` is among the files known to exist.
    pub open spec fn has(&self, p: Seq<char>) -> bool {
        exists|i: int| 0 <= i < self.files@.len() && (#[trigger] self.files@[i])@ == p
    }

    /// Tests `has`.
    pub fn is_file(&self, p: &[char]) -> (r: bool)
        ensures
            r == self.has(p@),
    {
        let mut i: usize = 0;
        while i < self.files.len()
            invariant
                i <= self.files@.len(),
                forall|j: int| 0 <= j < i ==> (#[trigger] self.files@[j])@ != p@,
            decreases self.files@.len() - i,
        {
            let f = chars_of(self.files[i].as_str());
            if chars_eq(f.as_slice(), p) {
                return true;
            }
            i += 1;
        }
        false
    }
}

/// The characters of an optional string.
pub open spec fn opt_view(o: Option<String>) -> Option<Seq<char>> {
    match o {
        Some(s) => Some(s@),
        None => None,
    }
}

/// `Path::join` on Unix: an absolute `rest` replaces `base`; otherwise `rest` is appended,
/// with a `/` between them unless `base` is empty or already ends in `/`.
pub open spec fn path_join(base: Seq<char>, rest: Seq<char>) -> Seq<char> {
    if rest.len() > 0 && rest[0] == '/' {
        rest
    } else if base.len() == 0 || base.last() == '/' {
        base + rest
    } else {
        base + seq!['/'] + rest
    }
}

/// Computes `path_join`.
pub fn join_path(base: &[char], rest: &[char]) -> (r: Vec<char>)
    ensures
        r@ == path_join(base@, rest@),
{
    if rest.len() > 0 && rest[0] == '/' {
        return sub_chars(rest, 0, rest.len());
    }
    let mut r = sub_chars(base, 0, base.len());
    if base.len() > 0 && base[base.len() - 1] != '/' {
        r.push('/');
    }
    push_all(&mut r, rest);
    proof {
        assert(base@.subrange(0, base@.len() as int) =~= base@);
        assert(rest@.subrange(0, rest@.len() as int) =~= rest@);
    }
    r
}

/// Computes `path_join` with a literal `rest`.
pub fn join_path_str(base: &[char], rest: &str) -> (r: Vec<char>)
    ensures
        r@ == path_join(base@, rest@),
{
    let rv = chars_of(rest);
    join_path(base, rv.as_slice())
}

/// The home directory: `HOME`, or `.` when unset.
pub open spec fn home_spec(e: &EnvVars) -> Seq<char> {
    match e.home {
        Some(h) => h@,
        None => "."@,
    }
}

/// The data directory: `TW_HOME`, else `~/.local/share/t-whisper`.
pub open spec fn data_dir_spec(e: &EnvVars) -> Seq<char> {
    match e.tw_home {
        Some(v) => v@,
        None => path_join(home_spec(e), ".local/share/t-whisper"@),
    }
}

/// Where downloaded models live: `<data dir>/models`.
pub open spec fn models_dir_spec(e: &EnvVars) -> Seq<char> {
    path_join(data_dir_spec(e), "models"@)
}

/// The older model directory that is reused: `~/models/whisper`.
pub open spec fn legacy_models_dir_spec(e: &EnvVars) -> Seq<char> {
    path_join(home_spec(e), "models/whisper"@)
}

/// The configuration directory: `$XDG_CONFIG_HOME/t-whisper`, else `~/.config/t-whisper`.
pub open spec fn config_dir_spec(e: &EnvVars) -> Seq<char> {
    match e.xdg_config_home {
        Some(v) => path_join(v@, "t-whisper"@),
        None => path_join(home_spec(e), ".config/t-whisper"@),
    }
}

/// The configuration file: `<config dir>/config`.
pub open spec fn config_path_spec(e: &EnvVars) -> Seq<char> {
    path_join(config_dir_spec(e), "config"@)
}

/// Where transcripts are written by default: `~/whisper-transcripts`.
pub open spec fn default_outdir_spec(e: &EnvVars) -> Seq<char> {
    path_join(home_spec(e), "whisper-transcripts"@)
}

pub fn home_chars(e: &EnvVars) -> (r: Vec<char>)
    ensures
        r@ == home_spec(e),
{
    match &e.home {
        Some(h) => chars_of(h.as_str()),
        None => chars_of("."),
    }
}

/// The home directory (`HOME`, or `.`).
pub fn home(e: &EnvVars) -> (r: String)
    ensures
        r@ == home_spec(e),
{
    string_from_chars(&home_chars(e))
}

pub fn data_dir_chars(e: &EnvVars) -> (r: Vec<char>)
    ensures
        r@ == data_dir_spec(e),
{
    match &e.tw_home {
        Some(v) => chars_of(v.as_str()),
        None => join_path_str(home_chars(e).as_slice(), ".local/share/t-whisper"),
    }
}

/// The data directory (`TW_HOME`, else `~/.local/share/t-whisper`).
pub fn data_dir(e: &EnvVars) -> (r: String)
    ensures
        r@ == data_dir_spec(e),
{
    string_from_chars(&data_dir_chars(e))
}

pub fn models_dir_chars(e: &EnvVars) -> (r: Vec<char>)
    ensures
        r@ == models_dir_spec(e),
{
    join_path_str(data_dir_chars(e).as_slice(), "models")
}

/// The managed model directory (`<data dir>/models`).
pub fn models_dir(e: &EnvVars) -> (r: String)
    ensures
        r@ == models_dir_spec(e),
{
    string_from_chars(&models_dir_chars(e))
}

pub fn legacy_models_dir_chars(e: &EnvVars) -> (r: Vec<char>)
    ensures
        r@ == legacy_models_dir_spec(e),
{
    join_path_str(home_chars(e).as_slice(), "models/whisper")
}

/// The older model directory (`~/models/whisper`).
pub fn legacy_models_dir(e: &EnvVars) -> (r: String)
    ensures
        r@ == legacy_models_dir_spec(e),
{
    string_from_chars(&legacy_models_dir_chars(e))
}

pub fn config_dir_chars(e: &EnvVars) -> (r: Vec<char>)
    ensures
        r@ == config_dir_spec(e),
{
    match &e.xdg_config_home {
        Some(v) => join_path_str(chars_of(v.as_str()).as_slice(), "t-whisper"),
        None => join_path_str(home_chars(e).as_slice(), ".config/t-whisper"),
    }
}

/// The configuration directory.
pub fn config_dir(e: &EnvVars) -> (r: String)
    ensures
        r@ == config_dir_spec(e),
{
    string_from_chars(&config_dir_chars(e))
}

/// The configuration file (`<config dir>/config`).
pub fn config_path(e: &EnvVars) -> (r: String)
    ensures
        r@ == config_path_spec(e),
{
    string_from_chars(&join_path_str(config_dir_chars(e).as_slice(), "config"))
}

pub fn default_outdir_chars(e: &EnvVars) -> (r: Vec<char>)
    ensures
        r@ == default_outdir_spec(e),
{
    join_path_str(home_chars(e).as_slice(), "whisper-transcripts")
}

/// The default transcript directory (`~/whisper-transcripts`).
pub fn default_outdir(e: &EnvVars) -> (r: String)
    ensures
        r@ == default_outdir_spec(e),
{
    string_from_chars(&default_outdir_chars(e))
}

// ---------------------------------------------------------------------------
// Command lookup
// ---------------------------------------------------------------------------

/// The places `cmd` is looked for: each `PATH` entry (split at `:`) joined with `cmd`.
pub open spec fn command_candidates_spec(e: &EnvVars, cmd: Seq<char>) -> Seq<Seq<char>> {
    match e.path {
        Some(p) => {
            let dirs = split_on(p@, ':');
            Seq::new(dirs.len(), |j: int| path_join(dirs[j], cmd))
        },
        None => Seq::empty(),
    }
}

/// The files whose existence decides `has_cmd`.
pub fn command_candidates(e: &EnvVars, cmd: &str) -> (r: Vec<String>)
    ensures
        r@.len() == command_candidates_spec(e, cmd@).len(),
        forall|j: int|
            0 <= j < r@.len() ==> (#[trigger] r@[j])@ == command_candidates_spec(e, cmd@)[j],
{
    let mut r: Vec<String> = Vec::new();
    match &e.path {
        None => {},
        Some(p) => {
            let pv = chars_of(p.as_str());
            let cv = chars_of(cmd);
            let dirs = split_chars(pv.as_slice(), ':');
            let mut i: usize = 0;
            while i < dirs.len()
                invariant
                    i <= dirs@.len(),
                    e.path == Some(*p),
                    pv@ == p@,
                    cv@ == cmd@,
                    dirs@.len() == split_on(pv@, ':').len(),
                    forall|j: int|
                        0 <= j < dirs@.len() ==> (#[trigger] dirs@[j])@ == split_on(pv@, ':')[j],
                    r@.len() == i,
                    forall|j: int|
                        0 <= j < i ==> (#[trigger] r@[j])@ == command_candidates_spec(
                            e,
                            cmd@,
                        )[j],
                decreases dirs@.len() - i,
            {
                let full = join_path(dirs[i].as_slice(), cv.as_slice());
                r.push(string_from_chars(&full));
                i += 1;
            }
        },
    }
    r
}

/// Whether `cmd` is an existing file in some `PATH` entry.
pub open spec fn has_cmd_spec(e: &EnvVars, cmd: Seq<char>, probe: &FileProbe) -> bool {
    exists|j: int|
        0 <= j < command_candidates_spec(e, cmd).len() && probe.has(
            #[trigger] command_candidates_spec(e, cmd)[j],
        )
}

/// Whether the command `cmd` is on `PATH`, given which candidate files exist.
pub fn has_cmd(e: &EnvVars, cmd: &str, probe: &FileProbe) -> (r: bool)
    ensures
        r == has_cmd_spec(e, cmd@, probe),
{
    let cands = command_candidates(e, cmd);
    let mut i: usize = 0;
    while i < cands.len()
        invariant
            i <= cands@.len(),
            cands@.len() == command_candidates_spec(e, cmd@).len(),
            forall|j: int|
                0 <= j < cands@.len() ==> (#[trigger] cands@[j])@ == command_candidates_spec(
                    e,
                    cmd@,
                )[j],
            forall|j: int| 0 <= j < i ==> !probe.has(#[trigger] command_candidates_spec(e, cmd@)[j]),
        decreases cands@.len() - i,
    {
        let c = chars_of(cands[i].as_str());
        if probe.is_file(c.as_slice()) {
            return true;
        }
        i += 1;
    }
    false
}

/// The Homebrew prefix: the trimmed output of `brew --prefix` when the command succeeded
/// and printed something, else the first of `/opt/homebrew`, `/usr/local` that holds
/// `bin/brew`.
pub open spec fn brew_prefix_spec(brew_out: Option<String>, probe: &FileProbe) -> Option<Seq<char>> {
    if brew_out is Some && trim(brew_out->0@).len() > 0 {
        Some(trim(brew_out->0@))
    } else if probe.has("/opt/homebrew/bin/brew"@) {
        Some("/opt/homebrew"@)
    } else if probe.has("/usr/local/bin/brew"@) {
        Some("/usr/local"@)
    } else {
        None
    }
}

/// The files whose existence decides `brew_prefix`.
pub fn brew_candidates() -> (r: Vec<String>)
    ensures
        r@.len() == 2,
        r@[0]@ == "/opt/homebrew/bin/brew"@,
        r@[1]@ == "/usr/local/bin/brew"@,
{
    let mut r: Vec<String> = Vec::new();
    r.push(string_from_chars(&chars_of("/opt/homebrew/bin/brew")));
    r.push(string_from_chars(&chars_of("/usr/local/bin/brew")));
    r
}

/// The Homebrew prefix (Apple Silicon `/opt/homebrew`, Intel `/usr/local`), given the output
/// of a successful `brew --prefix` (if any) and which candidate files exist.
pub fn brew_prefix(brew_out: Option<String>, probe: &FileProbe) -> (r: Option<String>)
    ensures
        opt_view(r) == brew_prefix_spec(brew_out, probe),
{
    if let Some(o) = &brew_out {
        let t = trim_chars(chars_of(o.as_str()).as_slice());
        if t.len() > 0 {
            return Some(string_from_chars(&t));
        }
    }
    if probe.is_file(chars_of("/opt/homebrew/bin/brew").as_slice()) {
        return Some(string_from_chars(&chars_of("/opt/homebrew")));
    }
    if probe.is_file(chars_of("/usr/local/bin/brew").as_slice()) {
        return Some(string_from_chars(&chars_of("/usr/local")));
    }
    None
}

// ---------------------------------------------------------------------------
// Thread count
// ---------------------------------------------------------------------------

/// `n` clamped into `[1, 8]`.
pub open spec fn clamp_threads(n: i32) -> i32 {
    if n < 1 {
        1
    } else if n > 8 {
        8
    } else {
        n
    }
}

/// The inference thread count: the performance-core count reported by `sysctl` when it
/// parses as a positive integer, else the available parallelism (4 when unknown, converted
/// with `as i32`), clamped into `[1, 8]`.
pub open spec fn threads_spec(available: Option<usize>, sysctl_out: Option<Seq<char>>) -> i32 {
    let n0: i32 = match available {
        Some(a) => a as i32,
        None => 4,
    };
    let n: i32 = match sysctl_out {
        Some(o) => match parse_i32(trim(o)) {
            Some(v) => if v > 0 {
                v
            } else {
                n0
            },
            None => n0,
        },
        None => n0,
    };
    clamp_threads(n)
}

/// The number of inference threads, from `available_parallelism` and the output of
/// `sysctl -n hw.perflevel0.logicalcpu` (when it ran).
pub fn threads(available: Option<usize>, sysctl_out: Option<String>) -> (r: i32)
    ensures
        r == threads_spec(available, opt_view(sysctl_out)),
        1 <= r <= 8,
{
    let n0: i32 = match available {
        Some(a) => a as i32,
        None => 4,
    };
    let mut n = n0;
    if let Some(o) = &sysctl_out {
        let t = trim_chars(chars_of(o.as_str()).as_slice());
        if let Some(v) = parse_i32_chars(t.as_slice()) {
            if v > 0 {
                n = v;
            }
        }
    }
    if n < 1 {
        1
    } else if n > 8 {
        8
    } else {
        n
    }
}

} // verus!
