//! Simplified → Traditional (Taiwan) conversion with OpenCC `s2twp`.
//!
//! OpenCC runs as a child process of the caller; this module decides when its output is
//! used and how it is cleaned, and which files a folder conversion touches.
use crate::text::{chars_of, contains_chars, contains_seq, push_str_chars, string_from_chars, chars_eq_str, sub_chars};
use vstd::prelude::*;

verus! {

/// The number of trailing newline characters.
pub open spec fn trailing_newlines(s: Seq<char>) -> nat
    decreases s.len(),
{
    if s.len() > 0 && s.last() == '\n' {
        1 + trailing_newlines(s.drop_last())
    } else {
        0
    }
}

/// `str::trim_end_matches('\n')`.
pub open spec fn trim_end_newlines(s: Seq<char>) -> Seq<char> {
    s.take(s.len() - trailing_newlines(s))
}

proof fn lemma_trailing_newlines(s: Seq<char>, k: int)
    requires
        0 <= k <= s.len(),
        forall|j: int| s.len() - k <= j < s.len() ==> #[trigger] s[j] == '\n',
        k == s.len() || s[s.len() - k - 1] != '\n',
    ensures
        trailing_newlines(s) == k,
    decreases k,
{
    if k > 0 {
        let t = s.drop_last();
        assert(s[s.len() - 1] == '\n');
        assert forall|j: int| t.len() - (k - 1) <= j < t.len() implies #[trigger] t[j] == '\n' by {
            assert(t[j] == s[j]);
        }
        if k < s.len() {
            assert(t[t.len() - (k - 1) - 1] == s[s.len() - k - 1]);
        }
        lemma_trailing_newlines(t, k - 1);
    }
}

/// The text shown: OpenCC's output without its trailing newlines when conversion is
/// enabled and OpenCC produced output; the text unchanged when conversion is off, OpenCC is
/// missing or it failed.
pub open spec fn to_traditional_spec(s: Seq<char>, enabled: bool, converted: Option<Seq<char>>) -> Seq<char> {
    if enabled && converted is Some {
        trim_end_newlines(converted->0)
    } else {
        s
    }
}

/// The text to show for `s`: `converted` is OpenCC's output for `s` (decoded lossily as
/// UTF-8), or `None` when OpenCC is not installed, was not run or failed.
pub fn to_traditional(s: &str, enabled: bool, converted: Option<String>) -> (r: String)
    ensures
        r@ == to_traditional_spec(
            s@,
            enabled,
            match converted {
                Some(c) => Some(c@),
                None => None,
            },
        ),
{
    if enabled {
        if let Some(c) = &converted {
            let v = chars_of(c.as_str());
            let mut k: usize = v.len();
            while k > 0 && v[k - 1] == '\n'
                invariant
                    k <= v@.len(),
                    forall|j: int| k <= j < v@.len() ==> #[trigger] v@[j] == '\n',
                decreases k,
            {
                k -= 1;
            }
            proof {
                lemma_trailing_newlines(v@, v@.len() - k);
            }
            let t = sub_chars(v.as_slice(), 0, k);
            proof {
                assert(t@ =~= trim_end_newlines(v@));
            }
            return string_from_chars(&t);
        }
    }
    string_from_chars(&chars_of(s))
}

/// A folder conversion touches `.txt`, `.srt` and `.vtt` files that are not themselves
/// conversions (their path holds no `.trad.`).
pub open spec fn convertible_spec(name: Seq<char>, ext: Seq<char>) -> bool {
    (ext == "txt"@ || ext == "srt"@ || ext == "vtt"@) && !contains_seq(name, ".trad."@)
}

/// Whether a file in a folder is converted (`name` is its path, `ext` its extension).
pub fn is_convertible(name: &str, ext: &str) -> (r: bool)
    ensures
        r == convertible_spec(name@, ext@),
{
    let e = chars_of(ext);
    let known = chars_eq_str(&e, "txt") || chars_eq_str(&e, "srt") || chars_eq_str(&e, "vtt");
    if !known {
        return false;
    }
    let n = chars_of(name);
    let marker = chars_of(".trad.");
    !contains_chars(n.as_slice(), marker.as_slice())
}

/// The extension of a converted file: `trad.<ext>`, with `txt` for a file that has none.
pub open spec fn trad_extension_spec(ext: Option<Seq<char>>) -> Seq<char> {
    "trad."@ + match ext {
        Some(e) => e,
        None => "txt"@,
    }
}

/// The extension given to the converted copy of a file with extension `ext`.
pub fn trad_extension(ext: Option<&str>) -> (r: String)
    ensures
        r@ == trad_extension_spec(
            match ext {
                Some(e) => Some(e@),
                None => None,
            },
        ),
{
    let mut out = chars_of("trad.");
    match ext {
        Some(e) => push_str_chars(&mut out, e),
        None => push_str_chars(&mut out, "txt"),
    }
    string_from_chars(&out)
}

} // verus!
