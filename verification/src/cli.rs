//! Decisions of the sub-commands: which model a command uses and the environment check.
use crate::env::{brew_prefix, brew_prefix_spec, has_cmd, has_cmd_spec, EnvVars, FileProbe};
use crate::models::{path, path_spec};
use crate::text::{chars_of, decimal, push_decimal, push_str_chars, string_from_chars};
use crate::ui::{Level, Message};
use vstd::prelude::*;

verus! {

/// The model of a command: the `--model` flag when given, else the configured model —
/// except that the sliding live mode, which needs speed, defaults to `turbo`.
pub open spec fn live_model_spec(sliding: bool, flag: Option<Seq<char>>, configured: Seq<char>) -> Seq<char> {
    match flag {
        Some(m) => m,
        None => if sliding {
            "turbo"@
        } else {
            configured
        },
    }
}

/// The model name used by `live`.
pub fn live_model_name(sliding: bool, flag: Option<&str>, configured: &str) -> (r: String)
    ensures
        r@ == live_model_spec(
            sliding,
            match flag {
                Some(m) => Some(m@),
                None => None,
            },
            configured@,
        ),
{
    match flag {
        Some(m) => string_from_chars(&chars_of(m)),
        None => if sliding {
            string_from_chars(&chars_of("turbo"))
        } else {
            string_from_chars(&chars_of(configured))
        },
    }
}

/// The model name used by `file` and `rec`: the flag, else the configured model.
pub fn model_name(flag: Option<&str>, configured: &str) -> (r: String)
    ensures
        r@ == live_model_spec(
            false,
            match flag {
                Some(m) => Some(m@),
                None => None,
            },
            configured@,
        ),
{
    live_model_name(false, flag, configured)
}

/// The number of problems the environment check reports: no Homebrew, no OpenCC, no model,
/// no microphone.
pub open spec fn doctor_problems(e: &EnvVars, brew_out: Option<String>, probe: &FileProbe, n_mics: nat) -> nat {
    (if brew_prefix_spec(brew_out, probe) is None {
        1nat
    } else {
        0nat
    }) + (if !has_cmd_spec(e, "opencc"@, probe) {
        1nat
    } else {
        0nat
    }) + (if path_spec("turbo"@, e, probe) is None && path_spec("large-v3"@, e, probe) is None {
        1nat
    } else {
        0nat
    }) + (if n_mics == 0 {
        1nat
    } else {
        0nat
    })
}

pub open spec fn rule_line() -> Seq<char> {
    "------------------------------------------------------------"@
}

/// The report of the environment check (`doctor`), message by message.
pub open spec fn doctor_spec(e: &EnvVars, brew_out: Option<String>, probe: &FileProbe, n_mics: nat) -> Seq<(Level, Seq<char>)> {
    let problems = doctor_problems(e, brew_out, probe, n_mics);
    seq![(Level::Info, "T-Whisper 環境檢查"@), (Level::Info, rule_line())] + match brew_prefix_spec(
        brew_out,
        probe,
    ) {
        Some(p) => seq![(Level::Success, "Homebrew（"@ + p + "）"@)],
        None => seq![(Level::Warn, "找不到 Homebrew"@)],
    } + (if has_cmd_spec(e, "opencc"@, probe) {
        seq![(Level::Success, "opencc（簡轉繁）"@)]
    } else {
        seq![(Level::Warn, "缺 opencc → brew install opencc（繁體輸出需要）"@)]
    }) + match path_spec("turbo"@, e, probe) {
        Some(p) => seq![(Level::Success, "模型 turbo（"@ + p + "）"@)],
        None => Seq::empty(),
    } + match path_spec("large-v3"@, e, probe) {
        Some(p) => seq![(Level::Success, "模型 large-v3（"@ + p + "）"@)],
        None => Seq::empty(),
    } + (if path_spec("turbo"@, e, probe) is None && path_spec("large-v3"@, e, probe) is None {
        seq![(Level::Warn, "尚無模型 → t-whisper models pull turbo"@)]
    } else {
        Seq::empty()
    }) + (if n_mics == 0 {
        seq![(Level::Warn, "列不到麥克風 → 系統設定 → 隱私權與安全性 → 麥克風，開啟終端機權限"@)]
    } else {
        seq![(Level::Success, "麥克風可列出（"@ + decimal(n_mics) + " 個輸入裝置）"@)]
    }) + seq![(Level::Info, rule_line())] + (if problems == 0 {
        seq![(Level::Success, "一切就緒！試試：t-whisper file <音檔>"@)]
    } else {
        seq![(Level::Warn, "有 "@ + decimal(problems) + " 項待處理（見上方）"@)]
    })
}

fn message(level: Level, text: Vec<char>) -> (m: Message)
    ensures
        m.level == level,
        m.text@ == text@,
{
    Message { level, text: string_from_chars(&text) }
}

fn wrapped(before: &str, middle: &str, after: &str) -> (r: Vec<char>)
    ensures
        r@ == before@ + middle@ + after@,
{
    let mut out = chars_of(before);
    push_str_chars(&mut out, middle);
    push_str_chars(&mut out, after);
    out
}

/// The environment check: `brew_out` is the output of a successful `brew --prefix`, `probe`
/// the existing files among the candidates of Homebrew, OpenCC and the models, `n_mics` the
/// number of input devices listed.
pub fn doctor(e: &EnvVars, brew_out: Option<String>, probe: &FileProbe, n_mics: usize) -> (r: Vec<Message>)
    ensures
        r@.map_values(|m: Message| (m.level, m.text@)) == doctor_spec(e, brew_out, probe, n_mics as nat),
{
    let ghost bo = brew_out;
    let mut r: Vec<Message> = Vec::new();
    let mut problems: u64 = 0;
    r.push(message(Level::Info, chars_of("T-Whisper 環境檢查")));
    r.push(message(Level::Info, chars_of("------------------------------------------------------------")));
    match brew_prefix(brew_out, probe) {
        Some(p) => r.push(message(Level::Success, wrapped("Homebrew（", p.as_str(), "）"))),
        None => {
            r.push(message(Level::Warn, chars_of("找不到 Homebrew")));
            problems += 1;
        },
    }
    if has_cmd(e, "opencc", probe) {
        r.push(message(Level::Success, chars_of("opencc（簡轉繁）")));
    } else {
        r.push(message(Level::Warn, chars_of("缺 opencc → brew install opencc（繁體輸出需要）")));
        problems += 1;
    }
    let turbo = path("turbo", e, probe);
    let large = path("large-v3", e, probe);
    let mut has_model = false;
    if let Some(p) = &turbo {
        r.push(message(Level::Success, wrapped("模型 turbo（", p.as_str(), "）")));
        has_model = true;
    }
    if let Some(p) = &large {
        r.push(message(Level::Success, wrapped("模型 large-v3（", p.as_str(), "）")));
        has_model = true;
    }
    if !has_model {
        r.push(message(Level::Warn, chars_of("尚無模型 → t-whisper models pull turbo")));
        problems += 1;
    }
    if n_mics == 0 {
        r.push(
            message(
                Level::Warn,
                chars_of("列不到麥克風 → 系統設定 → 隱私權與安全性 → 麥克風，開啟終端機權限"),
            ),
        );
        problems += 1;
    } else {
        let mut t = chars_of("麥克風可列出（");
        push_decimal(&mut t, n_mics as u64);
        push_str_chars(&mut t, " 個輸入裝置）");
        r.push(message(Level::Success, t));
    }
    r.push(message(Level::Info, chars_of("------------------------------------------------------------")));
    if problems == 0 {
        r.push(message(Level::Success, chars_of("一切就緒！試試：t-whisper file <音檔>")));
    } else {
        let mut t = chars_of("有 ");
        push_decimal(&mut t, problems);
        push_str_chars(&mut t, " 項待處理（見上方）");
        r.push(message(Level::Warn, t));
    }
    proof {
        assert(problems == doctor_problems(e, bo, probe, n_mics as nat));
        assert(r@.map_values(|m: Message| (m.level, m.text@)) =~= doctor_spec(e, bo, probe, n_mics as nat));
    }
    r
}

} // verus!
