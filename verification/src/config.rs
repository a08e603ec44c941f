//! The configuration file `~/.config/t-whisper/config` (`key=value` lines).
//!
//! The caller reads and writes the file; this module parses its text, produces the text to
//! write, and merges command-line overrides (flags > file > built-in defaults).
use crate::env::{default_outdir_chars, default_outdir_spec, home_chars, home_spec, join_path, path_join, EnvVars};
use crate::text::{
    digits_value, lemma_join_nl_push, lemma_lead_ws, lemma_trail_ws_props, trail_ws, trim_end, has_char, is_ws, join_nl, lemma_lines_free, lemma_lines_join_nl, lemma_span_not, lemma_trim_is,
    lemma_trim_strip_cr, strip_cr, chars_eq_str, chars_of, eq_ignore_ascii_case, eq_ignore_ascii_case_chars, find_char, lines,
    lines_of, parse_i32, parse_i32_chars, push_all, push_str_chars, span_not, starts_with,
    starts_with_chars, string_from_chars, sub_chars, trim, trim_bounds, trim_chars, trim_start,
};
use vstd::prelude::*;

verus! {

/// The settings of a transcription run.
#[derive(Debug, Clone)]
pub struct Config {
    /// Transcription language (`zh`, `en`, `ja`, ...).
    pub lang: String,
    /// Model name (`turbo`, `large-v3`) or a path to a `.bin` model.
    pub model: String,
    /// Beam-search width.
    pub beam: i32,
    /// Microphone name keyword (`default` = the system default input).
    pub mic: String,
    /// Convert the output to Traditional Chinese (Taiwan).
    pub to_traditional: bool,
    /// Where transcripts are written.
    pub outdir: String,
}

/// The abstract value of a [`Config`].
pub struct ConfigView {
    pub lang: Seq<char>,
    pub model: Seq<char>,
    pub beam: i32,
    pub mic: Seq<char>,
    pub to_traditional: bool,
    pub outdir: Seq<char>,
}

impl View for Config {
    type V = ConfigView;

    open spec fn view(&self) -> ConfigView {
        ConfigView {
            lang: self.lang@,
            model: self.model@,
            beam: self.beam,
            mic: self.mic@,
            to_traditional: self.to_traditional,
            outdir: self.outdir@,
        }
    }
}

/// The built-in defaults.
pub open spec fn default_view(e: &EnvVars) -> ConfigView {
    ConfigView {
        lang: "zh"@,
        model: "turbo"@,
        beam: 5,
        mic: "default"@,
        to_traditional: true,
        outdir: default_outdir_spec(e),
    }
}

/// The value part of a `key=value` line: up to the first `#` (an inline comment), trimmed.
pub open spec fn setting_value(rest: Seq<char>) -> Seq<char> {
    trim(rest.take(span_not(rest, '#') as int))
}

/// The effect of the setting `key=v` (unknown keys are ignored; a `beam` that does not parse
/// as an `i32` leaves the width unchanged).
pub open spec fn apply_setting(c: ConfigView, key: Seq<char>, v: Seq<char>, home: Seq<char>) -> ConfigView {
    if key == "lang"@ {
        ConfigView { lang: v, ..c }
    } else if key == "model"@ {
        ConfigView { model: v, ..c }
    } else if key == "beam"@ {
        match parse_i32(v) {
            Some(n) => ConfigView { beam: n, ..c },
            None => c,
        }
    } else if key == "mic"@ {
        ConfigView { mic: v, ..c }
    } else if key == "to_traditional"@ {
        ConfigView { to_traditional: v == "1"@ || eq_ignore_ascii_case(v, "true"@), ..c }
    } else if key == "outdir"@ {
        ConfigView {
            outdir: if starts_with(v, "~/"@) {
                path_join(home, v.skip(2))
            } else {
                v
            },
            ..c
        }
    } else {
        c
    }
}

/// The setting a line of the file makes, as `(key, value)`: blank lines, `#` comments and
/// lines without `=` make none; otherwise the key is the trimmed text before the first `=`.
pub open spec fn line_setting(raw: Seq<char>) -> Option<(Seq<char>, Seq<char>)> {
    let line = trim(raw);
    if line.len() == 0 || line[0] == '#' {
        None
    } else {
        let k = span_not(line, '=');
        if k == line.len() {
            None
        } else {
            Some((trim(line.take(k as int)), setting_value(line.skip(k + 1 as int))))
        }
    }
}

/// The effect of one line of the file.
pub open spec fn apply_line(c: ConfigView, raw: Seq<char>, home: Seq<char>) -> ConfigView {
    match line_setting(raw) {
        Some((key, v)) => apply_setting(c, key, v, home),
        None => c,
    }
}

/// The lines applied in order: a later setting of a key wins.
pub open spec fn apply_lines(c: ConfigView, ls: Seq<Seq<char>>, home: Seq<char>) -> ConfigView
    decreases ls.len(),
{
    if ls.len() == 0 {
        c
    } else {
        apply_line(apply_lines(c, ls.drop_last(), home), ls.last(), home)
    }
}

/// The configuration loaded from the file's text (`None`: the file could not be read).
pub open spec fn load_spec(text: Option<Seq<char>>, e: &EnvVars) -> ConfigView {
    match text {
        Some(t) => apply_lines(default_view(e), lines(t), home_spec(e)),
        None => default_view(e),
    }
}

/// The line `model=<model>` with its newline.
pub open spec fn model_line(model: Seq<char>) -> Seq<char> {
    "model="@ + model + seq!['\n']
}

/// A line that `set_model` replaces: after leading whitespace it starts with `model=`.
pub open spec fn is_model_line(line: Seq<char>) -> bool {
    starts_with(trim_start(line), "model="@)
}

/// Each line rewritten: a model line becomes `model_line(model)`, any other line is kept,
/// and every line ends with a newline.
pub open spec fn rewrite_lines(ls: Seq<Seq<char>>, model: Seq<char>) -> Seq<char>
    decreases ls.len(),
{
    if ls.len() == 0 {
        Seq::empty()
    } else {
        rewrite_lines(ls.drop_last(), model) + if is_model_line(ls.last()) {
            model_line(model)
        } else {
            ls.last() + seq!['\n']
        }
    }
}

/// The file's text after `set_model`: the lines rewritten, and `model_line(model)` appended
/// when no line was a model line.
pub open spec fn set_model_spec(text: Seq<char>, model: Seq<char>) -> Seq<char> {
    let ls = lines(text);
    rewrite_lines(ls, model) + if exists|j: int| 0 <= j < ls.len() && is_model_line(#[trigger] ls[j]) {
        Seq::<char>::empty()
    } else {
        model_line(model)
    }
}

/// A `key=value` line of the template: the key, `=`, the value, padding, then a comment.
pub open spec fn template_setting(k: Seq<char>, v: Seq<char>, pad: Seq<char>, comment: Seq<char>) -> Seq<char> {
    k + seq!['='] + v + pad + comment
}

/// The lines of the template written when no configuration file exists: a heading comment,
/// then one line per setting with its built-in default and a comment.
pub open spec fn template_lines() -> Seq<Seq<char>> {
    seq![
        "# T-Whisper 設定（CLI 旗標可覆蓋這裡）"@,
        template_setting("lang"@, "zh"@, "            "@, "# 轉錄語言（zh / en / ja …）"@),
        template_setting("model"@, "turbo"@, "        "@, "# 預設模型：turbo（快）或 large-v3（準）"@),
        template_setting("beam"@, "5"@, "             "@, "# beam search 寬度，越大越準越慢"@),
        template_setting("mic"@, "default"@, "        "@, "# 麥克風名稱關鍵字（default=系統預設輸入）"@),
        template_setting("to_traditional"@, "1"@, "   "@, "# 1=輸出簡轉繁（台灣用語），0=不轉"@),
        template_setting("outdir"@, "~/whisper-transcripts"@, Seq::empty(), Seq::empty()),
    ]
}

/// The template written when no configuration file exists: its lines, each ending in a
/// newline.
pub open spec fn default_text_spec() -> Seq<char> {
    join_nl(template_lines())
}

/// Appends a template line and its newline.
fn push_template_line(out: &mut Vec<char>, k: &str, v: &str, pad: &str, comment: &str)
    ensures
        final(out)@ == old(out)@ + template_setting(k@, v@, pad@, comment@) + seq!['\n'],
{
    push_str_chars(out, k);
    out.push('=');
    push_str_chars(out, v);
    push_str_chars(out, pad);
    push_str_chars(out, comment);
    out.push('\n');
    assert(final(out)@ =~= old(out)@ + template_setting(k@, v@, pad@, comment@) + seq!['\n']);
}

impl Config {
    /// The built-in defaults (`zh`, `turbo`, beam 5, `default` microphone, Traditional
    /// output, `~/whisper-transcripts`).
    pub fn default_for(e: &EnvVars) -> (c: Config)
        ensures
            c@ == default_view(e),
    {
        Config {
            lang: string_from_chars(&chars_of("zh")),
            model: string_from_chars(&chars_of("turbo")),
            beam: 5,
            mic: string_from_chars(&chars_of("default")),
            to_traditional: true,
            outdir: string_from_chars(&default_outdir_chars(e)),
        }
    }

    /// Applies the setting `key=v`.
    fn apply_setting(&mut self, key: &[char], v: &[char], home: &[char])
        ensures
            final(self)@ == apply_setting(old(self)@, key@, v@, home@),
    {
        let kv = sub_chars(key, 0, key.len());
        proof {
            assert(key@.subrange(0, key@.len() as int) =~= key@);
        }
        let vv = sub_chars(v, 0, v.len());
        proof {
            assert(v@.subrange(0, v@.len() as int) =~= v@);
        }
        if chars_eq_str(&kv, "lang") {
            self.lang = string_from_chars(&vv);
        } else if chars_eq_str(&kv, "model") {
            self.model = string_from_chars(&vv);
        } else if chars_eq_str(&kv, "beam") {
            if let Some(n) = parse_i32_chars(v) {
                self.beam = n;
            }
        } else if chars_eq_str(&kv, "mic") {
            self.mic = string_from_chars(&vv);
        } else if chars_eq_str(&kv, "to_traditional") {
            let one = chars_eq_str(&vv, "1");
            let tv = chars_of("true");
            let t = eq_ignore_ascii_case_chars(v, tv.as_slice());
            self.to_traditional = one || t;
        } else if chars_eq_str(&kv, "outdir") {
            let tilde = chars_of("~/");
            proof {
                reveal_strlit("~/");
            }
            if starts_with_chars(v, tilde.as_slice()) {
                let rest = sub_chars(v, 2, v.len());
                self.outdir = string_from_chars(&join_path(home, rest.as_slice()));
            } else {
                self.outdir = string_from_chars(&vv);
            }
        }
    }

    /// Applies one line of the configuration file.
    fn apply_line(&mut self, raw: &[char], home: &[char])
        ensures
            final(self)@ == apply_line(old(self)@, raw@, home@),
    {
        let line = trim_chars(raw);
        if line.len() == 0 || line[0] == '#' {
            return ;
        }
        let k = find_char(line.as_slice(), '=');
        if k == line.len() {
            return ;
        }
        let key = trim_chars(sub_chars(line.as_slice(), 0, k).as_slice());
        let rest = sub_chars(line.as_slice(), k + 1, line.len());
        let h = find_char(rest.as_slice(), '#');
        let value = trim_chars(sub_chars(rest.as_slice(), 0, h).as_slice());
        proof {
            assert(line@.subrange(0, k as int) =~= line@.take(k as int));
            assert(line@.subrange(k + 1, line@.len() as int) =~= line@.skip(k + 1));
            assert(rest@.subrange(0, h as int) =~= rest@.take(h as int));
        }
        self.apply_setting(key.as_slice(), value.as_slice(), home);
    }

    /// The configuration read from the file's text (`None` when the file could not be read:
    /// the defaults).
    pub fn load(text: Option<&str>, e: &EnvVars) -> (c: Config)
        ensures
            c@ == load_spec(
                match text {
                    Some(t) => Some(t@),
                    None => None,
                },
                e,
            ),
    {
        let mut c = Config::default_for(e);
        match text {
            None => c,
            Some(t) => {
                let tv = chars_of(t);
                let ls = lines_of(tv.as_slice());
                let home = home_chars(e);
                let ghost spec_ls = lines(t@);
                let mut i: usize = 0;
                while i < ls.len()
                    invariant
                        i <= ls@.len(),
                        tv@ == t@,
                        spec_ls == lines(t@),
                        home@ == home_spec(e),
                        ls@.len() == spec_ls.len(),
                        forall|j: int| 0 <= j < ls@.len() ==> (#[trigger] ls@[j])@ == spec_ls[j],
                        c@ == apply_lines(default_view(e), spec_ls.take(i as int), home@),
                    decreases ls@.len() - i,
                {
                    proof {
                        assert(spec_ls.take(i + 1).drop_last() =~= spec_ls.take(i as int));
                        assert(spec_ls.take(i + 1).last() == ls@[i as int]@);
                    }
                    c.apply_line(ls[i].as_slice(), home.as_slice());
                    i += 1;
                }
                proof {
                    assert(spec_ls.take(spec_ls.len() as int) =~= spec_ls);
                }
                c
            },
        }
    }

    /// The configuration file's text with `model=` set to `model` (every model line
    /// replaced; one appended when there is none).
    pub fn set_model(text: &str, model: &str) -> (r: String)
        ensures
            r@ == set_model_spec(text@, model@),
    {
        let tv = chars_of(text);
        let ls = lines_of(tv.as_slice());
        let mut ml = chars_of("model=");
        push_str_chars(&mut ml, model);
        ml.push('\n');
        let prefix = chars_of("model=");
        let ghost spec_ls = lines(text@);
        let mut out: Vec<char> = Vec::new();
        let mut found = false;
        let mut i: usize = 0;
        while i < ls.len()
            invariant
                i <= ls@.len(),
                tv@ == text@,
                spec_ls == lines(text@),
                ml@ == model_line(model@),
                prefix@ == "model="@,
                ls@.len() == spec_ls.len(),
                forall|j: int| 0 <= j < ls@.len() ==> (#[trigger] ls@[j])@ == spec_ls[j],
                out@ == rewrite_lines(spec_ls.take(i as int), model@),
                found == exists|j: int| 0 <= j < i && is_model_line(#[trigger] spec_ls[j]),
            decreases ls@.len() - i,
        {
            proof {
                assert(spec_ls.take(i + 1).drop_last() =~= spec_ls.take(i as int));
                assert(spec_ls.take(i + 1).last() == ls@[i as int]@);
            }
            let line = ls[i].as_slice();
            let (a, _b) = trim_bounds(line);
            let tail = sub_chars(line, a, line.len());
            proof {
                assert(tail@ =~= trim_start(line@));
            }
            if starts_with_chars(tail.as_slice(), prefix.as_slice()) {
                push_all(&mut out, ml.as_slice());
                found = true;
            } else {
                push_all(&mut out, line);
                out.push('\n');
            }
            i += 1;
            proof {
                assert(out@ =~= rewrite_lines(spec_ls.take(i as int), model@));
                if is_model_line(spec_ls[i - 1]) {
                    assert(exists|j: int| 0 <= j < i && is_model_line(#[trigger] spec_ls[j]));
                }
            }
        }
        proof {
            assert(spec_ls.take(spec_ls.len() as int) =~= spec_ls);
        }
        if !found {
            push_all(&mut out, ml.as_slice());
        }
        proof {
            assert(out@ =~= set_model_spec(text@, model@));
        }
        string_from_chars(&out)
    }

    /// The template written when the configuration file does not exist yet.
    pub fn default_text() -> (r: String)
        ensures
            r@ == default_text_spec(),
    {
        let mut out: Vec<char> = Vec::new();
        let ghost mut ps: Seq<Seq<char>> = Seq::empty();
        push_str_chars(&mut out, "# T-Whisper 設定（CLI 旗標可覆蓋這裡）");
        out.push('\n');
        proof {
            lemma_join_nl_push(ps, "# T-Whisper 設定（CLI 旗標可覆蓋這裡）"@);
            ps = ps.push("# T-Whisper 設定（CLI 旗標可覆蓋這裡）"@);
            assert(out@ =~= join_nl(ps));
        }
        push_template_line(&mut out, "lang", "zh", "            ", "# 轉錄語言（zh / en / ja …）");
        proof {
            let l = template_setting("lang"@, "zh"@, "            "@, "# 轉錄語言（zh / en / ja …）"@);
            lemma_join_nl_push(ps, l);
            ps = ps.push(l);
        }
        push_template_line(&mut out, "model", "turbo", "        ", "# 預設模型：turbo（快）或 large-v3（準）");
        proof {
            let l = template_setting("model"@, "turbo"@, "        "@, "# 預設模型：turbo（快）或 large-v3（準）"@);
            lemma_join_nl_push(ps, l);
            ps = ps.push(l);
        }
        push_template_line(&mut out, "beam", "5", "             ", "# beam search 寬度，越大越準越慢");
        proof {
            let l = template_setting("beam"@, "5"@, "             "@, "# beam search 寬度，越大越準越慢"@);
            lemma_join_nl_push(ps, l);
            ps = ps.push(l);
        }
        push_template_line(&mut out, "mic", "default", "        ", "# 麥克風名稱關鍵字（default=系統預設輸入）");
        proof {
            let l = template_setting("mic"@, "default"@, "        "@, "# 麥克風名稱關鍵字（default=系統預設輸入）"@);
            lemma_join_nl_push(ps, l);
            ps = ps.push(l);
        }
        push_template_line(&mut out, "to_traditional", "1", "   ", "# 1=輸出簡轉繁（台灣用語），0=不轉");
        proof {
            let l = template_setting("to_traditional"@, "1"@, "   "@, "# 1=輸出簡轉繁（台灣用語），0=不轉"@);
            lemma_join_nl_push(ps, l);
            ps = ps.push(l);
        }
        push_str_chars(&mut out, "outdir");
        out.push('=');
        push_str_chars(&mut out, "~/whisper-transcripts");
        out.push('\n');
        proof {
            let l = template_setting("outdir"@, "~/whisper-transcripts"@, Seq::empty(), Seq::empty());
            lemma_join_nl_push(ps, l);
            ps = ps.push(l);
            assert(ps =~= template_lines());
        }
        string_from_chars(&out)
    }

    /// Command-line flags override the file: each given flag replaces its setting.
    pub fn apply_overrides(&mut self, lang: Option<String>, beam: Option<i32>, mic: Option<String>)
        ensures
            final(self)@ == with_overrides(
                old(self)@,
                match lang {
                    Some(l) => Some(l@),
                    None => None,
                },
                beam,
                match mic {
                    Some(m) => Some(m@),
                    None => None,
                },
            ),
    {
        if let Some(l) = lang {
            self.lang = l;
        }
        if let Some(b) = beam {
            self.beam = b;
        }
        if let Some(m) = mic {
            self.mic = m;
        }
    }
}

/// The configuration with the given command-line flags applied.
pub open spec fn with_overrides(c: ConfigView, lang: Option<Seq<char>>, beam: Option<i32>, mic: Option<Seq<char>>) -> ConfigView {
    ConfigView {
        lang: match lang {
            Some(l) => l,
            None => c.lang,
        },
        beam: match beam {
            Some(b) => b,
            None => c.beam,
        },
        mic: match mic {
            Some(m) => m,
            None => c.mic,
        },
        ..c
    }
}

/// Precedence: a command-line flag beats the file, the file beats the built-in defaults
/// (without a readable file the defaults apply), and flags never touch the other settings.
pub proof fn law_precedence(text: Option<Seq<char>>, e: &EnvVars, lang: Option<Seq<char>>, beam: Option<i32>, mic: Option<Seq<char>>)
    ensures
        ({
            let file = load_spec(text, e);
            let r = with_overrides(file, lang, beam, mic);
            &&& r.lang == if lang is Some { lang->0 } else { file.lang }
            &&& r.beam == if beam is Some { beam->0 } else { file.beam }
            &&& r.mic == if mic is Some { mic->0 } else { file.mic }
            &&& r.model == file.model
            &&& r.to_traditional == file.to_traditional
            &&& r.outdir == file.outdir
        }),
        load_spec(None, e) == default_view(e),
{
}


// ---------------------------------------------------------------------------
// Writing the model and reading it back
// ---------------------------------------------------------------------------

/// A line that sets the model.
pub open spec fn sets_model(raw: Seq<char>) -> bool {
    line_setting(raw) matches Some((k, _)) && k == "model"@
}

/// A value that a `key=value` line gives back unchanged: no `#`, no newline, no whitespace
/// at either end.
pub open spec fn clean_value(m: Seq<char>) -> bool {
    &&& !has_char(m, '#')
    &&& !has_char(m, '\n')
    &&& m.len() > 0 ==> !is_ws(m[0]) && !is_ws(m.last())
}

/// Only the `model` key changes the model.
proof fn lemma_setting_model(c: ConfigView, k: Seq<char>, v: Seq<char>, h: Seq<char>)
    ensures
        apply_setting(c, k, v, h).model == if k == "model"@ {
            v
        } else {
            c.model
        },
{
    reveal_strlit("lang");
    reveal_strlit("model");
    if k == "model"@ {
        assert(k != "lang"@) by {
            assert(k.len() != "lang"@.len());
        }
    }
}

/// The model after a sequence of lines: `m` when some line sets the model and every such
/// line sets it to `m`; otherwise unchanged.
proof fn lemma_apply_lines_model(c: ConfigView, ls: Seq<Seq<char>>, h: Seq<char>, m: Seq<char>)
    requires
        forall|j: int| 0 <= j < ls.len() && sets_model(#[trigger] ls[j]) ==> (line_setting(ls[j])->0).1 == m,
    ensures
        apply_lines(c, ls, h).model == if exists|j: int| 0 <= j < ls.len() && sets_model(#[trigger] ls[j]) {
            m
        } else {
            c.model
        },
    decreases ls.len(),
{
    if ls.len() > 0 {
        let q = ls.drop_last();
        assert forall|j: int| 0 <= j < q.len() && sets_model(#[trigger] q[j]) implies (line_setting(q[j])->0).1 == m by {
            assert(q[j] == ls[j]);
        }
        lemma_apply_lines_model(c, q, h, m);
        let c1 = apply_lines(c, q, h);
        let l = ls.last();
        match line_setting(l) {
            Some((k, v)) => lemma_setting_model(c1, k, v, h),
            None => {},
        }
        if exists|j: int| 0 <= j < q.len() && sets_model(#[trigger] q[j]) {
            let j = choose|j: int| 0 <= j < q.len() && sets_model(#[trigger] q[j]);
            assert(ls[j] == q[j]);
        }
        if exists|j: int| 0 <= j < ls.len() && sets_model(#[trigger] ls[j]) {
            let j = choose|j: int| 0 <= j < ls.len() && sets_model(#[trigger] ls[j]);
            if j < q.len() {
                assert(q[j] == ls[j]);
            }
        }
    }
}

/// A line after `set_model`: model lines become `model=<model>`.
pub open spec fn rewritten_line(l: Seq<char>, m: Seq<char>) -> Seq<char> {
    if is_model_line(l) {
        "model="@ + m
    } else {
        l
    }
}

/// The lines `set_model` writes (each followed by a newline).
pub open spec fn set_model_pieces(text: Seq<char>, m: Seq<char>) -> Seq<Seq<char>> {
    let ls = lines(text);
    let p = Seq::new(ls.len(), |j: int| rewritten_line(ls[j], m));
    if exists|j: int| 0 <= j < ls.len() && is_model_line(#[trigger] ls[j]) {
        p
    } else {
        p.push("model="@ + m)
    }
}

proof fn lemma_rewrite_join(ls: Seq<Seq<char>>, m: Seq<char>)
    ensures
        rewrite_lines(ls, m) == join_nl(Seq::new(ls.len(), |j: int| rewritten_line(ls[j], m))),
    decreases ls.len(),
{
    let p = Seq::new(ls.len(), |j: int| rewritten_line(ls[j], m));
    if ls.len() > 0 {
        let q = ls.drop_last();
        lemma_rewrite_join(q, m);
        assert(p.drop_last() =~= Seq::new(q.len(), |j: int| rewritten_line(q[j], m)));
        assert(model_line(m) =~= ("model="@ + m) + seq!['\n']);
        assert(rewrite_lines(ls, m) =~= join_nl(p));
    } else {
        assert(p.len() == 0);
    }
}

proof fn lemma_set_model_join(text: Seq<char>, m: Seq<char>)
    ensures
        set_model_spec(text, m) == join_nl(set_model_pieces(text, m)),
{
    let ls = lines(text);
    let p = Seq::new(ls.len(), |j: int| rewritten_line(ls[j], m));
    lemma_rewrite_join(ls, m);
    if !(exists|j: int| 0 <= j < ls.len() && is_model_line(#[trigger] ls[j])) {
        let x = "model="@ + m;
        assert(p.push(x).drop_last() =~= p);
        assert(model_line(m) =~= x + seq!['\n']);
        assert(set_model_spec(text, m) =~= join_nl(p.push(x)));
    } else {
        assert(set_model_spec(text, m) =~= join_nl(p));
    }
}

/// The line `model=<m>` reads back as the setting `model` = `m`.
proof fn lemma_model_line_setting(m: Seq<char>)
    requires
        clean_value(m),
    ensures
        line_setting("model="@ + m) == Some(("model"@, m)),
        strip_cr("model="@ + m) == "model="@ + m,
        !has_char("model="@ + m, '\n'),
{
    reveal_strlit("model=");
    reveal_strlit("model");
    let line = "model="@ + m;
    let n = line.len() as int;
    assert(line[0] == 'm');
    assert(line[5] == '=');
    assert(!is_ws(line[n - 1])) by {
        if m.len() > 0 {
            assert(line[n - 1] == m.last());
        } else {
            assert(line[n - 1] == '=');
        }
    }
    lemma_trim_is(line, 0, n);
    assert(line.subrange(0, n) =~= line);
    assert forall|j: int| 0 <= j < 5 implies #[trigger] line[j] != '=' by {}
    lemma_span_not(line, '=', 5);
    let key = line.take(5);
    assert(key =~= "model"@);
    lemma_trim_is(key, 0, 5);
    assert(key.subrange(0, 5) =~= key);
    let rest = line.skip(6);
    assert(rest =~= m);
    assert forall|j: int| 0 <= j < m.len() implies #[trigger] m[j] != '#' by {
        if m[j] == '#' {
            assert(has_char(m, '#'));
        }
    }
    lemma_span_not(m, '#', m.len() as int);
    assert(m.take(m.len() as int) =~= m);
    lemma_trim_is(m, 0, m.len() as int);
    assert(m.subrange(0, m.len() as int) =~= m);
    assert(!has_char(line, '\n')) by {
        if has_char(line, '\n') {
            let i = choose|i: int| 0 <= i < line.len() && line[i] == '\n';
            if i >= 6 {
                assert(m[i - 6] == '\n');
                assert(has_char(m, '\n'));
            }
        }
    }
}

/// After `set_model(text, m)`, loading the file gives the model `m` — for a model value
/// that a `key=value` line carries unchanged (`clean_value`), and provided no other line of
/// the file sets `model` in a form that `set_model` does not replace (such as `model = x`,
/// with a space before the `=`).
pub proof fn law_set_model_then_load(text: Seq<char>, m: Seq<char>, e: &EnvVars)
    requires
        clean_value(m),
        forall|j: int|
            0 <= j < lines(text).len() ==> is_model_line(#[trigger] lines(text)[j]) || !sets_model(
                lines(text)[j],
            ),
    ensures
        load_spec(Some(set_model_spec(text, m)), e).model == m,
{
    let ls = lines(text);
    let ps = set_model_pieces(text, m);
    let x = "model="@ + m;
    lemma_set_model_join(text, m);
    lemma_lines_free(text);
    lemma_model_line_setting(m);
    let found = exists|j: int| 0 <= j < ls.len() && is_model_line(#[trigger] ls[j]);
    assert forall|j: int| 0 <= j < ps.len() implies !has_char(#[trigger] ps[j], '\n') by {
        if j < ls.len() {
            assert(ps[j] == rewritten_line(ls[j], m));
        } else {
            assert(ps[j] == x);
        }
    }
    lemma_lines_join_nl(ps);
    let l2 = Seq::new(ps.len(), |j: int| strip_cr(ps[j]));
    assert forall|j: int| 0 <= j < l2.len() && sets_model(#[trigger] l2[j]) implies (line_setting(l2[j])->0).1 == m by {
        if j < ls.len() && !is_model_line(ls[j]) {
            assert(ps[j] == ls[j]);
            lemma_trim_strip_cr(ls[j]);
            assert(line_setting(l2[j]) == line_setting(ls[j]));
            assert(false);
        } else {
            if j < ls.len() {
                assert(ps[j] == rewritten_line(ls[j], m));
            }
            assert(ps[j] == x);
        }
    }
    assert(exists|j: int| 0 <= j < l2.len() && sets_model(#[trigger] l2[j])) by {
        if found {
            let j = choose|j: int| 0 <= j < ls.len() && is_model_line(#[trigger] ls[j]);
            assert(ps[j] == rewritten_line(ls[j], m));
            assert(l2[j] == x);
        } else {
            let j = ls.len() as int;
            assert(ps[j] == x);
            assert(l2[j] == x);
        }
    }
    lemma_apply_lines_model(default_view(e), l2, home_spec(e), m);
}

/// Two configurations that agree on everything but the model.
pub open spec fn same_but_model(a: ConfigView, b: ConfigView) -> bool {
    &&& a.lang == b.lang
    &&& a.beam == b.beam
    &&& a.mic == b.mic
    &&& a.to_traditional == b.to_traditional
    &&& a.outdir == b.outdir
}

proof fn lemma_setting_congruent(c1: ConfigView, c2: ConfigView, k: Seq<char>, v: Seq<char>, h: Seq<char>)
    requires
        same_but_model(c1, c2),
    ensures
        same_but_model(apply_setting(c1, k, v, h), apply_setting(c2, k, v, h)),
{
}

/// A `model` setting changes nothing else.
proof fn lemma_model_setting_only(c: ConfigView, v: Seq<char>, h: Seq<char>)
    ensures
        same_but_model(apply_setting(c, "model"@, v, h), c),
{
    reveal_strlit("lang");
    reveal_strlit("model");
    assert("model"@ != "lang"@) by {
        assert("model"@.len() != "lang"@.len());
    }
}

/// A line `set_model` replaces sets the model.
proof fn lemma_model_line_sets_model(l: Seq<char>)
    requires
        is_model_line(l),
    ensures
        sets_model(l),
{
    reveal_strlit("model=");
    reveal_strlit("model");
    let t = trim_start(l);
    assert(t.take(6) == "model="@);
    assert(t[5] == '=') by {
        assert(t.take(6)[5] == t[5]);
    }
    assert(t[0] == 'm') by {
        assert(t.take(6)[0] == t[0]);
    }
    lemma_trail_ws_props(t);
    assert(trail_ws(t) <= t.len() - 6) by {
        if trail_ws(t) > t.len() - 6 {
            assert(is_ws(t[5]));
        }
    }
    let line = trim(l);
    assert(line == trim_end(t));
    assert forall|j: int| 0 <= j < 6 implies line[j] == t[j] by {}
    assert forall|j: int| 0 <= j < 5 implies #[trigger] line[j] != '=' by {
        assert(line[j] == t[j]);
        assert(t.take(6)[j] == t[j]);
    }
    assert(line[5] == '=');
    lemma_span_not(line, '=', 5);
    let key = line.take(5);
    assert(key =~= "model"@) by {
        assert forall|j: int| 0 <= j < 5 implies key[j] == "model"@[j] by {
            assert(key[j] == t[j]);
            assert(t.take(6)[j] == t[j]);
        }
    }
    lemma_trim_is(key, 0, 5);
    assert(key.subrange(0, 5) =~= key);
}

/// Lines whose settings agree, or that both set only the model, leave configurations that
/// agree on everything but the model.
proof fn lemma_lines_same_but_model(c1: ConfigView, c2: ConfigView, a: Seq<Seq<char>>, b: Seq<Seq<char>>, h: Seq<char>)
    requires
        same_but_model(c1, c2),
        a.len() == b.len(),
        forall|j: int|
            0 <= j < a.len() ==> line_setting(#[trigger] a[j]) == line_setting(b[j]) || (sets_model(a[j])
                && sets_model(b[j])),
    ensures
        same_but_model(apply_lines(c1, a, h), apply_lines(c2, b, h)),
    decreases a.len(),
{
    if a.len() > 0 {
        let a2 = a.drop_last();
        let b2 = b.drop_last();
        assert forall|j: int|
            0 <= j < a2.len() implies line_setting(#[trigger] a2[j]) == line_setting(b2[j]) || (
            sets_model(a2[j]) && sets_model(b2[j])) by {
            assert(a2[j] == a[j] && b2[j] == b[j]);
        }
        lemma_lines_same_but_model(c1, c2, a2, b2, h);
        let d1 = apply_lines(c1, a2, h);
        let d2 = apply_lines(c2, b2, h);
        let x = a.last();
        let y = b.last();
        assert(line_setting(a[a.len() - 1]) == line_setting(b[a.len() - 1]) || (sets_model(
            a[a.len() - 1],
        ) && sets_model(b[a.len() - 1])));
        if line_setting(x) == line_setting(y) {
            match line_setting(x) {
                Some((k, v)) => lemma_setting_congruent(d1, d2, k, v, h),
                None => {},
            }
        } else {
            let (k1, v1) = line_setting(x)->0;
            let (k2, v2) = line_setting(y)->0;
            lemma_model_setting_only(d1, v1, h);
            lemma_model_setting_only(d2, v2, h);
        }
    }
}

/// `set_model` changes only the model: loading the file after it gives the same language,
/// beam width, microphone, conversion setting and output directory as before (for a model
/// value that a `key=value` line carries unchanged).
pub proof fn law_set_model_keeps_other_settings(text: Seq<char>, m: Seq<char>, e: &EnvVars)
    requires
        clean_value(m),
    ensures
        same_but_model(load_spec(Some(set_model_spec(text, m)), e), load_spec(Some(text), e)),
{
    let ls = lines(text);
    let ps = set_model_pieces(text, m);
    let x = "model="@ + m;
    let h = home_spec(e);
    let c = default_view(e);
    lemma_set_model_join(text, m);
    lemma_lines_free(text);
    lemma_model_line_setting(m);
    assert forall|j: int| 0 <= j < ps.len() implies !has_char(#[trigger] ps[j], '\n') by {
        if j < ls.len() {
            assert(ps[j] == rewritten_line(ls[j], m));
        } else {
            assert(ps[j] == x);
        }
    }
    lemma_lines_join_nl(ps);
    let l2 = Seq::new(ps.len(), |j: int| strip_cr(ps[j]));
    let n = ls.len() as int;
    let l2n = l2.take(n);
    assert forall|j: int|
        0 <= j < n implies line_setting(#[trigger] ls[j]) == line_setting(l2n[j]) || (sets_model(ls[j])
            && sets_model(l2n[j])) by {
        assert(l2n[j] == l2[j]);
        assert(ps[j] == rewritten_line(ls[j], m));
        if is_model_line(ls[j]) {
            lemma_model_line_sets_model(ls[j]);
            assert(l2[j] == x);
        } else {
            lemma_trim_strip_cr(ls[j]);
            assert(line_setting(l2[j]) == line_setting(ls[j]));
        }
    }
    lemma_lines_same_but_model(c, c, ls, l2n, h);
    if l2.len() == n {
        assert(l2n =~= l2);
    } else {
        assert(l2.drop_last() =~= l2n);
        assert(ps[n] == x);
        assert(l2.last() == x);
        lemma_model_setting_only(apply_lines(c, l2n, h), m, h);
    }
}

// ---------------------------------------------------------------------------
// The template reads back as the defaults
// ---------------------------------------------------------------------------

/// The configuration after the lines in order, one more line at a time.
proof fn lemma_apply_lines_push(c: ConfigView, ls: Seq<Seq<char>>, x: Seq<char>, h: Seq<char>)
    ensures
        apply_lines(c, ls.push(x), h) == apply_line(apply_lines(c, ls, h), x, h),
{
    assert(ls.push(x).drop_last() =~= ls);
}

/// A template setting line reads back as its key and value, and holds no newline.
proof fn lemma_template_setting(k: Seq<char>, v: Seq<char>, pad: Seq<char>, comment: Seq<char>)
    requires
        k.len() > 0,
        !is_ws(k[0]),
        k[0] != '#',
        !is_ws(k.last()),
        forall|i: int| 0 <= i < k.len() ==> #[trigger] k[i] != '=' && k[i] != '\n',
        v.len() > 0,
        !is_ws(v[0]),
        !is_ws(v.last()),
        forall|i: int| 0 <= i < v.len() ==> #[trigger] v[i] != '#' && v[i] != '\n',
        forall|i: int| 0 <= i < pad.len() ==> #[trigger] pad[i] == ' ',
        comment.len() == 0 ==> pad.len() == 0,
        comment.len() > 0 ==> comment[0] == '#' && !is_ws(comment.last()),
        forall|i: int| 0 <= i < comment.len() ==> #[trigger] comment[i] != '\n',
    ensures
        line_setting(template_setting(k, v, pad, comment)) == Some((k, v)),
        !has_char(template_setting(k, v, pad, comment), '\n'),
        strip_cr(template_setting(k, v, pad, comment)) == template_setting(k, v, pad, comment),
{
    let line = template_setting(k, v, pad, comment);
    let n = line.len() as int;
    let kl = k.len() as int;
    let vl = v.len() as int;
    let pl = pad.len() as int;
    assert forall|i: int| 0 <= i < kl implies line[i] == k[i] by {}
    assert(line[kl] == '=');
    assert forall|i: int| 0 <= i < vl implies line[kl + 1 + i] == v[i] by {}
    assert forall|i: int| 0 <= i < pl implies line[kl + 1 + vl + i] == pad[i] by {}
    assert forall|i: int| 0 <= i < comment.len() implies line[kl + 1 + vl + pl + i] == comment[i] by {}
    assert(!is_ws(line[n - 1])) by {
        if comment.len() > 0 {
            assert(line[n - 1] == comment[comment.len() - 1]);
        } else {
            assert(line[n - 1] == v[vl - 1]);
        }
    }
    lemma_trim_is(line, 0, n);
    assert(line.subrange(0, n) =~= line);
    assert forall|j: int| 0 <= j < kl implies #[trigger] line[j] != '=' by {
        assert(line[j] == k[j]);
    }
    lemma_span_not(line, '=', kl);
    assert(line.take(kl) =~= k);
    lemma_trim_is(k, 0, kl);
    assert(k.subrange(0, kl) =~= k);
    let rest = line.skip(kl + 1);
    assert(rest =~= v + pad + comment);
    let cut = vl + pl;
    assert forall|j: int| 0 <= j < cut implies #[trigger] rest[j] != '#' by {
        if j < vl {
            assert(rest[j] == v[j]);
        } else {
            assert(rest[j] == pad[j - vl]);
        }
    }
    if comment.len() > 0 {
        assert(rest[cut] == comment[0]);
    }
    lemma_span_not(rest, '#', cut);
    let vp = rest.take(cut);
    assert(vp =~= v + pad);
    assert forall|j: int| vl <= j < vp.len() implies is_ws(#[trigger] vp[j]) by {
        assert(vp[j] == pad[j - vl]);
    }
    assert(vp[0] == v[0]);
    assert(vp[vl - 1] == v[vl - 1]);
    lemma_trim_is(vp, 0, vl);
    assert(vp.subrange(0, vl) =~= v);
    assert(!has_char(line, '\n')) by {
        if has_char(line, '\n') {
            let i = choose|i: int| 0 <= i < line.len() && line[i] == '\n';
            if i < kl {
                assert(line[i] == k[i]);
            } else if i == kl {
            } else if i < kl + 1 + vl {
                assert(line[i] == v[i - kl - 1]);
            } else if i < kl + 1 + vl + pl {
                assert(line[i] == pad[i - kl - 1 - vl]);
            } else {
                assert(line[i] == comment[i - kl - 1 - vl - pl]);
            }
        }
    }
}

/// The template's heading is a comment line: it sets nothing.
proof fn lemma_template_heading(c: Seq<char>)
    requires
        c.len() > 0,
        c[0] == '#',
        !is_ws(c.last()),
        forall|i: int| 0 <= i < c.len() ==> #[trigger] c[i] != '\n',
    ensures
        line_setting(c) is None,
        !has_char(c, '\n'),
        strip_cr(c) == c,
{
    lemma_trim_is(c, 0, c.len() as int);
    assert(c.subrange(0, c.len() as int) =~= c);
}

/// The template's lines, and the setting each makes.
proof fn lemma_template_lines()
    ensures
        lines(default_text_spec()) == template_lines(),
        line_setting(template_lines()[0]) is None,
        line_setting(template_lines()[1]) == Some(("lang"@, "zh"@)),
        line_setting(template_lines()[2]) == Some(("model"@, "turbo"@)),
        line_setting(template_lines()[3]) == Some(("beam"@, "5"@)),
        line_setting(template_lines()[4]) == Some(("mic"@, "default"@)),
        line_setting(template_lines()[5]) == Some(("to_traditional"@, "1"@)),
        line_setting(template_lines()[6]) == Some(("outdir"@, "~/whisper-transcripts"@)),
{
    reveal_strlit("# T-Whisper 設定（CLI 旗標可覆蓋這裡）");
    reveal_strlit("lang");
    reveal_strlit("zh");
    reveal_strlit("            ");
    reveal_strlit("# 轉錄語言（zh / en / ja …）");
    reveal_strlit("model");
    reveal_strlit("turbo");
    reveal_strlit("        ");
    reveal_strlit("# 預設模型：turbo（快）或 large-v3（準）");
    reveal_strlit("beam");
    reveal_strlit("5");
    reveal_strlit("             ");
    reveal_strlit("# beam search 寬度，越大越準越慢");
    reveal_strlit("mic");
    reveal_strlit("default");
    reveal_strlit("# 麥克風名稱關鍵字（default=系統預設輸入）");
    reveal_strlit("to_traditional");
    reveal_strlit("1");
    reveal_strlit("   ");
    reveal_strlit("# 1=輸出簡轉繁（台灣用語），0=不轉");
    reveal_strlit("outdir");
    reveal_strlit("~/whisper-transcripts");
    reveal_strlit("~/");
    reveal_strlit("whisper-transcripts");
    let t = template_lines();
    lemma_template_heading(t[0]);
    lemma_template_setting("lang"@, "zh"@, "            "@, "# 轉錄語言（zh / en / ja …）"@);
    lemma_template_setting("model"@, "turbo"@, "        "@, "# 預設模型：turbo（快）或 large-v3（準）"@);
    lemma_template_setting("beam"@, "5"@, "             "@, "# beam search 寬度，越大越準越慢"@);
    lemma_template_setting("mic"@, "default"@, "        "@, "# 麥克風名稱關鍵字（default=系統預設輸入）"@);
    lemma_template_setting("to_traditional"@, "1"@, "   "@, "# 1=輸出簡轉繁（台灣用語），0=不轉"@);
    lemma_template_setting("outdir"@, "~/whisper-transcripts"@, Seq::empty(), Seq::empty());
    assert forall|j: int| 0 <= j < t.len() implies !has_char(#[trigger] t[j], '\n') by {}
    lemma_lines_join_nl(t);
    assert(lines(default_text_spec()) =~= t);
}

/// Writing the template and loading it gives the built-in defaults, field by field
/// (`zh`, `turbo`, beam 5, `default`, Traditional output, `~/whisper-transcripts`).
pub proof fn law_default_text_loads_defaults(e: &EnvVars)
    ensures
        load_spec(Some(default_text_spec()), e) == default_view(e),
{
    reveal_strlit("# T-Whisper 設定（CLI 旗標可覆蓋這裡）");
    reveal_strlit("lang");
    reveal_strlit("zh");
    reveal_strlit("            ");
    reveal_strlit("# 轉錄語言（zh / en / ja …）");
    reveal_strlit("model");
    reveal_strlit("turbo");
    reveal_strlit("        ");
    reveal_strlit("# 預設模型：turbo（快）或 large-v3（準）");
    reveal_strlit("beam");
    reveal_strlit("5");
    reveal_strlit("             ");
    reveal_strlit("# beam search 寬度，越大越準越慢");
    reveal_strlit("mic");
    reveal_strlit("default");
    reveal_strlit("# 麥克風名稱關鍵字（default=系統預設輸入）");
    reveal_strlit("to_traditional");
    reveal_strlit("1");
    reveal_strlit("   ");
    reveal_strlit("# 1=輸出簡轉繁（台灣用語），0=不轉");
    reveal_strlit("outdir");
    reveal_strlit("~/whisper-transcripts");
    reveal_strlit("~/");
    reveal_strlit("whisper-transcripts");
    lemma_template_lines();
    let t = template_lines();
    let h = home_spec(e);
    let d = default_view(e);
    assert(t.take(0) =~= Seq::<Seq<char>>::empty());
    // heading
    lemma_apply_lines_push(d, t.take(0), t[0], h);
    assert(t.take(1) =~= t.take(0).push(t[0]));
    assert(apply_lines(d, t.take(1), h) == d);
    // lang
    lemma_apply_lines_push(d, t.take(1), t[1], h);
    assert(t.take(2) =~= t.take(1).push(t[1]));
    let c2 = apply_setting(d, "lang"@, "zh"@, h);
    assert(apply_lines(d, t.take(2), h) == c2);
    assert(c2 == d);
    // model
    lemma_apply_lines_push(d, t.take(2), t[2], h);
    assert(t.take(3) =~= t.take(2).push(t[2]));
    assert("model"@ != "lang"@);
    let c3 = apply_setting(d, "model"@, "turbo"@, h);
    assert(apply_lines(d, t.take(3), h) == c3);
    assert(c3 == d);
    // beam
    lemma_apply_lines_push(d, t.take(3), t[3], h);
    assert(t.take(4) =~= t.take(3).push(t[3]));
    assert("beam"@ != "lang"@ && "beam"@ != "model"@) by {
        assert("beam"@[0] != "lang"@[0]);
    }
    assert(digits_value("5"@) == 5) by {
        assert("5"@.len() == 1);
        assert("5"@[0] == '5');
        assert("5"@.drop_last() =~= Seq::<char>::empty());
        assert(digits_value(Seq::<char>::empty()) == 0);
        assert(('5' as u32) == 53);
    }
    assert(parse_i32("5"@) == Some(5i32));
    let c4 = apply_setting(d, "beam"@, "5"@, h);
    assert(apply_lines(d, t.take(4), h) == c4);
    assert(c4 == d);
    // mic
    lemma_apply_lines_push(d, t.take(4), t[4], h);
    assert(t.take(5) =~= t.take(4).push(t[4]));
    let c5 = apply_setting(d, "mic"@, "default"@, h);
    assert(apply_lines(d, t.take(5), h) == c5);
    assert(c5 == d);
    // to_traditional
    lemma_apply_lines_push(d, t.take(5), t[5], h);
    assert(t.take(6) =~= t.take(5).push(t[5]));
    let c6 = apply_setting(d, "to_traditional"@, "1"@, h);
    assert(apply_lines(d, t.take(6), h) == c6);
    assert(c6 == d);
    // outdir
    lemma_apply_lines_push(d, t.take(6), t[6], h);
    assert(t.take(7) =~= t.take(6).push(t[6]));
    assert("outdir"@ != "lang"@ && "outdir"@ != "model"@ && "outdir"@ != "beam"@ && "outdir"@ != "mic"@ && "outdir"@ != "to_traditional"@);
    assert(starts_with("~/whisper-transcripts"@, "~/"@)) by {
        assert("~/whisper-transcripts"@.take(2) =~= "~/"@);
    }
    assert("~/whisper-transcripts"@.skip(2) =~= "whisper-transcripts"@);
    let c7 = apply_setting(d, "outdir"@, "~/whisper-transcripts"@, h);
    assert(apply_lines(d, t.take(7), h) == c7);
    assert(c7 == d);
    assert(t.take(7) =~= t);
}

/// The line `model=<m>` is one that `set_model` replaces.
proof fn lemma_model_piece_is_model_line(m: Seq<char>)
    ensures
        is_model_line("model="@ + m),
{
    reveal_strlit("model=");
    let x = "model="@ + m;
    assert(x[0] == 'm');
    lemma_lead_ws(x, 0);
    assert(x.skip(0) =~= x);
    assert(x.take(6) =~= "model="@);
}

/// Running `set_model` twice with the same model gives the same file as running it once
/// — for a model value without a newline, and a file none of whose lines ends in a
/// carriage return that `str::lines` keeps (such as a last line `a\r` without a newline,
/// which the first run turns into `a\r\n` and the second into `a\n`).
pub proof fn law_set_model_idempotent(text: Seq<char>, m: Seq<char>)
    requires
        !has_char(m, '\n'),
        forall|j: int| 0 <= j < lines(text).len() ==> strip_cr(#[trigger] lines(text)[j]) == lines(text)[j],
    ensures
        set_model_spec(set_model_spec(text, m), m) == set_model_spec(text, m),
{
    reveal_strlit("model=");
    let ls = lines(text);
    let ps = set_model_pieces(text, m);
    let x = "model="@ + m;
    let sx = strip_cr(x);
    let o = set_model_spec(text, m);
    lemma_set_model_join(text, m);
    lemma_lines_free(text);
    assert(!has_char(x, '\n')) by {
        if has_char(x, '\n') {
            let i = choose|i: int| 0 <= i < x.len() && x[i] == '\n';
            if i >= 6 {
                assert(m[i - 6] == '\n');
                assert(has_char(m, '\n'));
            }
        }
    }
    assert(is_model_line(sx)) by {
        if m.len() > 0 && m.last() == '\r' {
            assert(sx =~= "model="@ + m.drop_last());
            lemma_model_piece_is_model_line(m.drop_last());
        } else {
            assert(x.last() != '\r') by {
                if m.len() > 0 {
                    assert(x.last() == m.last());
                } else {
                    assert(x.last() == '=');
                }
            }
            lemma_model_piece_is_model_line(m);
        }
    }
    assert(rewritten_line(sx, m) == x);
    assert forall|j: int| 0 <= j < ps.len() implies !has_char(#[trigger] ps[j], '\n') by {
        if j < ls.len() {
            assert(ps[j] == rewritten_line(ls[j], m));
        } else {
            assert(ps[j] == x);
        }
    }
    lemma_lines_join_nl(ps);
    let l2 = Seq::new(ps.len(), |j: int| strip_cr(ps[j]));
    assert(lines(o) == l2);
    assert forall|j: int| 0 <= j < l2.len() implies rewritten_line(#[trigger] l2[j], m) == ps[j] by {
        if j < ls.len() {
            assert(ps[j] == rewritten_line(ls[j], m));
            if !is_model_line(ls[j]) {
                assert(strip_cr(ls[j]) == ls[j]);
            } else {
                assert(ps[j] == x);
            }
        } else {
            assert(ps[j] == x);
        }
    }
    lemma_rewrite_join(l2, m);
    assert(Seq::new(l2.len(), |j: int| rewritten_line(l2[j], m)) =~= ps);
    assert(exists|j: int| 0 <= j < l2.len() && is_model_line(#[trigger] l2[j])) by {
        if exists|j: int| 0 <= j < ls.len() && is_model_line(#[trigger] ls[j]) {
            let j = choose|j: int| 0 <= j < ls.len() && is_model_line(#[trigger] ls[j]);
            assert(ps[j] == rewritten_line(ls[j], m));
            assert(l2[j] == sx);
        } else {
            assert(ps[ls.len() as int] == x);
            assert(l2[ls.len() as int] == sx);
        }
    }
    assert(set_model_spec(o, m) =~= o);
}

/// A fresh configuration file with its model set: the template written, then `set_model(m)`,
/// loads as the built-in defaults with the model `m` (for a model value that a `key=value`
/// line carries unchanged).
pub proof fn law_set_model_on_template(m: Seq<char>, e: &EnvVars)
    requires
        clean_value(m),
    ensures
        load_spec(Some(set_model_spec(default_text_spec(), m)), e).model == m,
        same_but_model(load_spec(Some(set_model_spec(default_text_spec(), m)), e), default_view(e)),
{
    reveal_strlit("model");
    reveal_strlit("model=");
    reveal_strlit("turbo");
    reveal_strlit("        ");
    reveal_strlit("# 預設模型：turbo（快）或 large-v3（準）");
    lemma_template_lines();
    law_default_text_loads_defaults(e);
    law_set_model_keeps_other_settings(default_text_spec(), m, e);
    let t = template_lines();
    let tail = "turbo"@ + "        "@ + "# 預設模型：turbo（快）或 large-v3（準）"@;
    assert(t[2] =~= "model="@ + tail);
    lemma_model_piece_is_model_line(tail);
    assert forall|j: int| 0 <= j < lines(default_text_spec()).len() implies is_model_line(
        #[trigger] lines(default_text_spec())[j],
    ) || !sets_model(lines(default_text_spec())[j]) by {
        assert(lines(default_text_spec())[j] == t[j]);
        if j != 2 {
            reveal_strlit("lang");
            reveal_strlit("beam");
            reveal_strlit("mic");
            reveal_strlit("to_traditional");
            reveal_strlit("outdir");
            assert("beam"@[0] != "model"@[0]);
            assert("mic"@[1] != "model"@[1]);
        }
    }
    law_set_model_then_load(default_text_spec(), m, e);
}

} // verus!
