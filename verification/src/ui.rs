//! Terminal messages: their severity and how each is rendered (ANSI colours when stderr is a
//! terminal). Messages go to stderr; stdout is left to the transcript.
use crate::text::{chars_of, push_str_chars, string_from_chars};
use vstd::prelude::*;

verus! {

/// The severity of a message shown to the user.
#[derive(Clone, Copy, Debug, PartialEq, Eq)]
pub enum Level {
    Info,
    Success,
    Warn,
    Error,
    Fix,
    Dim,
}

/// A message for the user.
pub struct Message {
    pub level: Level,
    pub text: String,
}

/// `s` wrapped in the ANSI colour `code` when colour is on.
pub open spec fn paint_spec(code: Seq<char>, s: Seq<char>, color: bool) -> Seq<char> {
    if color {
        "\x1b["@ + code + "m"@ + s + "\x1b[0m"@
    } else {
        s
    }
}

/// Wraps `s` in the ANSI colour `code` when colour is on.
pub fn paint(code: &str, s: &str, color: bool) -> (r: String)
    ensures
        r@ == paint_spec(code@, s@, color),
{
    if color {
        let mut out = chars_of("\x1b[");
        push_str_chars(&mut out, code);
        push_str_chars(&mut out, "m");
        push_str_chars(&mut out, s);
        push_str_chars(&mut out, "\x1b[0m");
        string_from_chars(&out)
    } else {
        string_from_chars(&chars_of(s))
    }
}

/// How a message of each level is shown: information plain, success green with a check
/// mark, warnings yellow, errors red with `錯誤：`, fixes dim with `修復：`, dim text dim.
pub open spec fn render_spec(level: Level, msg: Seq<char>, color: bool) -> Seq<char> {
    match level {
        Level::Info => msg,
        Level::Success => paint_spec("32"@, "✅ "@ + msg, color),
        Level::Warn => paint_spec("33"@, "⚠️  "@ + msg, color),
        Level::Error => paint_spec("31"@, "錯誤："@ + msg, color),
        Level::Fix => paint_spec("2"@, "修復："@ + msg, color),
        Level::Dim => paint_spec("2"@, msg, color),
    }
}

fn prefixed(prefix: &str, msg: &str) -> (r: String)
    ensures
        r@ == prefix@ + msg@,
{
    let mut out = chars_of(prefix);
    push_str_chars(&mut out, msg);
    string_from_chars(&out)
}

/// The text written to stderr for a message.
pub fn render(level: Level, msg: &str, color: bool) -> (r: String)
    ensures
        r@ == render_spec(level, msg@, color),
{
    match level {
        Level::Info => string_from_chars(&chars_of(msg)),
        Level::Success => paint("32", prefixed("✅ ", msg).as_str(), color),
        Level::Warn => paint("33", prefixed("⚠️  ", msg).as_str(), color),
        Level::Error => paint("31", prefixed("錯誤：", msg).as_str(), color),
        Level::Fix => paint("2", prefixed("修復：", msg).as_str(), color),
        Level::Dim => paint("2", msg, color),
    }
}

} // verus!
