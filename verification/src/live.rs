//! Live transcription: the voice-activity state machines that decide when to transcribe,
//! and the single-line display of partial text.
//!
//! Audio samples and their loudness (RMS against a calibrated threshold) stay with the
//! caller, which hands each frame's verdict (`loud`) to the machines here and carries out
//! the actions they return on its buffers.
use crate::text::{
    chars_of, parse_usize, parse_usize_chars, push_all, string_from_chars, trim, trim_chars,
};
use vstd::prelude::*;

verus! {

// ---------------------------------------------------------------------------
// Display width and tail truncation
// ---------------------------------------------------------------------------

/// The display width of a character: 2 for East Asian wide ranges (Hangul Jamo, CJK,
/// Hangul syllables, compatibility ideographs, vertical and fullwidth forms), else 1.
pub open spec fn char_width_spec(c: char) -> nat {
    let o = c as u32;
    if (0x1100 <= o <= 0x115F) || (0x2E80 <= o <= 0xA4CF) || (0xAC00 <= o <= 0xD7A3) || (0xF900
        <= o <= 0xFAFF) || (0xFE30 <= o <= 0xFE4F) || (0xFF00 <= o <= 0xFF60) || (0xFFE0 <= o
        <= 0xFFE6) {
        2
    } else {
        1
    }
}

/// The display width of a character.
pub fn char_width(c: char) -> (r: usize)
    ensures
        r == char_width_spec(c),
{
    let o = c as u32;
    let wide = (0x1100 <= o && o <= 0x115F) || (0x2E80 <= o && o <= 0xA4CF) || (0xAC00 <= o && o
        <= 0xD7A3) || (0xF900 <= o && o <= 0xFAFF) || (0xFE30 <= o && o <= 0xFE4F) || (0xFF00 <= o
        && o <= 0xFF60) || (0xFFE0 <= o && o <= 0xFFE6);
    if wide {
        2
    } else {
        1
    }
}

/// The display width of a text: the sum of its characters' widths.
pub open spec fn width(s: Seq<char>) -> nat
    decreases s.len(),
{
    if s.len() == 0 {
        0
    } else {
        char_width_spec(s[0]) + width(s.drop_first())
    }
}

/// The end of a text that fits in `maxw` columns: the longest suffix whose width is at most
/// `maxw` (the newest text stays visible). `r` is that suffix when `r == s.skip(k)`, it
/// fits, and one more character would not.
pub open spec fn is_tail_fit(s: Seq<char>, maxw: nat, r: Seq<char>) -> bool {
    let k = s.len() - r.len();
    &&& r.len() <= s.len()
    &&& r == s.skip(k)
    &&& width(r) <= maxw
    &&& (k == 0 || width(s.skip(k - 1)) > maxw)
}

/// Keeps the end of `s` that fits in `maxw` display columns.
pub fn truncate_tail(s: &str, maxw: usize) -> (r: String)
    ensures
        is_tail_fit(s@, maxw as nat, r@),
{
    let v = chars_of(s);
    let n = v.len();
    let mut i: usize = n;
    let mut acc: u128 = 0;
    proof {
        assert(v@.skip(n as int) =~= Seq::<char>::empty());
    }
    let mut full = false;
    while i > 0 && !full
        invariant
            i <= n,
            n == v@.len(),
            acc as int == width(v@.skip(i as int)),
            acc <= maxw,
            full ==> i > 0 && width(v@.skip(i - 1)) > maxw,
        decreases i, if full { 0int } else { 1int },
    {
        let cw = char_width(v[i - 1]);
        proof {
            assert(v@.skip(i - 1).drop_first() =~= v@.skip(i as int));
            assert(v@.skip(i - 1)[0] == v@[i - 1]);
        }
        if acc + cw as u128 > maxw as u128 {
            full = true;
        } else {
            acc = acc + cw as u128;
            i -= 1;
        }
    }
    let kept = crate::text::sub_chars(v.as_slice(), i, n);
    proof {
        assert(kept@ =~= v@.skip(i as int));
    }
    string_from_chars(&kept)
}

/// The columns available for the partial line: one less than the terminal width, at least
/// 10.
pub fn partial_width(term_width: usize) -> (r: usize)
    ensures
        r == if term_width >= 11 {
            term_width - 1
        } else {
            10
        },
{
    let w = if term_width > 0 {
        term_width - 1
    } else {
        0
    };
    if w > 10 {
        w
    } else {
        10
    }
}

/// A terminal width read from text: a positive `usize`.
pub open spec fn positive_width(s: Seq<char>) -> Option<usize> {
    match parse_usize(s) {
        Some(n) => if n > 0 {
            Some(n)
        } else {
            None
        },
        None => None,
    }
}

/// The terminal width: `COLUMNS` when it is a positive number, else the trimmed output of
/// `tput cols` when that is, else 100.
pub open spec fn term_width_spec(columns: Option<Seq<char>>, tput_out: Option<Seq<char>>) -> usize {
    if columns is Some && positive_width(columns->0) is Some {
        positive_width(columns->0)->0
    } else if tput_out is Some && positive_width(trim(tput_out->0)) is Some {
        positive_width(trim(tput_out->0))->0
    } else {
        100
    }
}

fn positive_width_chars(s: &[char]) -> (r: Option<usize>)
    ensures
        r == positive_width(s@),
{
    match parse_usize_chars(s) {
        Some(n) => if n > 0 {
            Some(n)
        } else {
            None
        },
        None => None,
    }
}

/// The width given by `COLUMNS`, if it is a positive number (then `tput` need not run).
pub fn columns_width(columns: &Option<String>) -> (r: Option<usize>)
    ensures
        r == match columns {
            Some(c) => positive_width(c@),
            None => None,
        },
{
    match columns {
        Some(c) => positive_width_chars(chars_of(c.as_str()).as_slice()),
        None => None,
    }
}

/// The terminal width from `COLUMNS` and the output of `tput cols` (when it ran).
pub fn term_width(columns: &Option<String>, tput_out: &Option<String>) -> (r: usize)
    ensures
        r == term_width_spec(
            match columns {
                Some(c) => Some(c@),
                None => None,
            },
            match tput_out {
                Some(t) => Some(t@),
                None => None,
            },
        ),
{
    if let Some(n) = columns_width(columns) {
        return n;
    }
    if let Some(t) = tput_out {
        let tv = trim_chars(chars_of(t.as_str()).as_slice());
        if let Some(n) = positive_width_chars(tv.as_slice()) {
            return n;
        }
    }
    100
}

// ---------------------------------------------------------------------------
// Session text
// ---------------------------------------------------------------------------

/// The committed lines of transcribed texts: each non-empty text followed by a newline.
pub open spec fn committed_spec(texts: Seq<Seq<char>>) -> Seq<char>
    decreases texts.len(),
{
    if texts.len() == 0 {
        Seq::empty()
    } else {
        committed_spec(texts.drop_last()) + if texts.last().len() == 0 {
            Seq::<char>::empty()
        } else {
            texts.last() + seq!['\n']
        }
    }
}

/// The session text added by one transcribed utterance (empty texts are skipped).
pub fn committed_text(texts: &Vec<String>) -> (r: String)
    ensures
        r@ == committed_spec(texts@.map_values(|t: String| t@)),
{
    let ghost tv = texts@.map_values(|t: String| t@);
    let mut out: Vec<char> = Vec::new();
    let mut i: usize = 0;
    while i < texts.len()
        invariant
            i <= texts@.len(),
            tv == texts@.map_values(|t: String| t@),
            out@ == committed_spec(tv.take(i as int)),
        decreases texts@.len() - i,
    {
        proof {
            assert(tv.take(i + 1).drop_last() =~= tv.take(i as int));
        }
        let t = chars_of(texts[i].as_str());
        if t.len() > 0 {
            push_all(&mut out, t.as_slice());
            out.push('\n');
        }
        i += 1;
        proof {
            assert(out@ =~= committed_spec(tv.take(i as int)));
        }
    }
    proof {
        assert(tv.take(tv.len() as int) =~= tv);
    }
    string_from_chars(&out)
}

/// The concatenation of texts.
pub open spec fn concat_spec(texts: Seq<Seq<char>>) -> Seq<char>
    decreases texts.len(),
{
    if texts.len() == 0 {
        Seq::empty()
    } else {
        concat_spec(texts.drop_last()) + texts.last()
    }
}

/// The partial line of the sliding window: the segments' texts joined, then trimmed.
pub fn joined_text(texts: &Vec<String>) -> (r: String)
    ensures
        r@ == trim(concat_spec(texts@.map_values(|t: String| t@))),
{
    let ghost tv = texts@.map_values(|t: String| t@);
    let mut out: Vec<char> = Vec::new();
    let mut i: usize = 0;
    while i < texts.len()
        invariant
            i <= texts@.len(),
            tv == texts@.map_values(|t: String| t@),
            out@ == concat_spec(tv.take(i as int)),
        decreases texts@.len() - i,
    {
        proof {
            assert(tv.take(i + 1).drop_last() =~= tv.take(i as int));
        }
        let t = chars_of(texts[i].as_str());
        push_all(&mut out, t.as_slice());
        i += 1;
    }
    proof {
        assert(tv.take(tv.len() as int) =~= tv);
    }
    string_from_chars(&trim_chars(out.as_slice()))
}

/// A session stamp: the trimmed output of `date +%Y%m%d-%H%M%S` when there is one, else the
/// fallback.
pub open spec fn stamp_spec(out: Option<Seq<char>>, fallback: Seq<char>) -> Seq<char> {
    if out is Some && trim(out->0).len() > 0 {
        trim(out->0)
    } else {
        fallback
    }
}

/// The stamp that names a session's files.
pub fn stamp_or(out: &Option<String>, fallback: &str) -> (r: String)
    ensures
        r@ == stamp_spec(
            match out {
                Some(o) => Some(o@),
                None => None,
            },
            fallback@,
        ),
{
    if let Some(o) = out {
        let t = trim_chars(chars_of(o.as_str()).as_slice());
        if t.len() > 0 {
            return string_from_chars(&t);
        }
    }
    string_from_chars(&chars_of(fallback))
}

// ---------------------------------------------------------------------------
// Voice-activity detection: utterances cut at pauses
// ---------------------------------------------------------------------------

/// Silence added per quiet frame (a frame is 30 ms).
pub const FRAME_MS: u64 = 30;

/// The pause that ends an utterance.
pub const VAD_SILENCE_MS: u64 = 600;

/// The pause that commits the sliding line.
pub const SLIDING_SILENCE_MS: u64 = 800;

/// Sizes, in samples at the capture rate, used by both live modes.
pub struct VadParams {
    /// One 30 ms frame (at least one sample).
    pub frame_len: u64,
    /// The longest utterance: 20 s.
    pub max_utter: u64,
    /// The shortest utterance worth transcribing: 0.25 s.
    pub min_utter: u64,
    /// Audio measured for the noise threshold before listening: 0.5 s.
    pub calib_len: u64,
    /// The sliding window: 8 s.
    pub window_max: u64,
}

/// The sizes for a capture rate.
pub open spec fn params_spec(rate: u32) -> VadParams {
    VadParams {
        frame_len: if rate as int * 30 / 1000 > 1 {
            (rate as int * 30 / 1000) as u64
        } else {
            1
        },
        max_utter: (rate as int * 20) as u64,
        min_utter: (rate as int / 4) as u64,
        calib_len: (rate as int / 2) as u64,
        window_max: (rate as int * 8) as u64,
    }
}

impl VadParams {
    /// The sizes for a capture rate (samples per second).
    pub fn for_rate(rate: u32) -> (p: VadParams)
        ensures
            p == params_spec(rate),
    {
        let r = rate as u64;
        let f = r * 30 / 1000;
        VadParams {
            frame_len: if f > 1 {
                f
            } else {
                1
            },
            max_utter: r * 20,
            min_utter: r / 4,
            calib_len: r / 2,
            window_max: r * 8,
        }
    }
}

/// The state of the pause-cutting detector.
#[derive(Clone, Copy, Debug, PartialEq, Eq)]
pub struct VadState {
    /// The noise threshold has been measured.
    pub calibrated: bool,
    /// Samples measured so far for the threshold.
    pub calib_len: u64,
    /// An utterance is under way.
    pub in_speech: bool,
    /// Quiet time since the utterance was last loud.
    pub silence_ms: u64,
    /// Samples in the current utterance.
    pub utter_len: u64,
}

/// What the caller does with a frame.
#[derive(Clone, Copy, Debug, PartialEq, Eq)]
pub struct VadAction {
    /// Add the frame to the calibration audio (before the threshold is known).
    pub measure: bool,
    /// The calibration audio is complete: set the threshold from it.
    pub calibrate: bool,
    /// Add the frame to the utterance.
    pub append: bool,
    /// The utterance ends: empty it (after `append`).
    pub flush: bool,
    /// Transcribe the utterance before emptying it.
    pub transcribe: bool,
    /// The utterance's length when it ends.
    pub flushed_len: u64,
}

/// The detector before any audio.
pub open spec fn vad_init_spec() -> VadState {
    VadState { calibrated: false, calib_len: 0, in_speech: false, silence_ms: 0, utter_len: 0 }
}

/// A flush, transcribing when the utterance is long enough.
pub open spec fn flush_action(p: VadParams, len: u64, append: bool) -> VadAction {
    VadAction {
        measure: false,
        calibrate: false,
        append,
        flush: true,
        transcribe: len >= p.min_utter,
        flushed_len: len,
    }
}

/// One frame of the detector. Before calibration the frame is measured. After: a loud
/// frame starts or continues the utterance; a quiet frame continues a started utterance
/// and adds 30 ms of silence, ending it after 600 ms; a quiet frame outside an utterance is
/// dropped; an utterance that reaches 20 s ends.
pub open spec fn vad_step_spec(p: VadParams, s: VadState, loud: bool) -> (VadState, VadAction) {
    if !s.calibrated {
        let cl = (s.calib_len + p.frame_len) as u64;
        let done = cl >= p.calib_len;
        (
            VadState { calibrated: done, calib_len: cl, ..s },
            VadAction {
                measure: true,
                calibrate: done,
                append: false,
                flush: false,
                transcribe: false,
                flushed_len: 0,
            },
        )
    } else {
        let append = loud || s.in_speech;
        let in1 = append;
        let sil1: u64 = if loud {
            0
        } else if s.in_speech {
            (s.silence_ms + FRAME_MS) as u64
        } else {
            s.silence_ms
        };
        let len1: u64 = if append {
            (s.utter_len + p.frame_len) as u64
        } else {
            s.utter_len
        };
        if (!loud && s.in_speech && sil1 >= VAD_SILENCE_MS) || len1 >= p.max_utter {
            (
                VadState { in_speech: false, silence_ms: 0, utter_len: 0, ..s },
                flush_action(p, len1, append),
            )
        } else {
            (
                VadState { in_speech: in1, silence_ms: sil1, utter_len: len1, ..s },
                VadAction {
                    measure: false,
                    calibrate: false,
                    append,
                    flush: false,
                    transcribe: false,
                    flushed_len: 0,
                },
            )
        }
    }
}

/// The detector's invariant: before calibration nothing is heard; outside an utterance
/// there is no silence count and no audio; an utterance is always shorter than 20 s and its
/// silence shorter than 600 ms.
pub open spec fn vad_wf(p: VadParams, s: VadState) -> bool {
    &&& !s.calibrated ==> !s.in_speech && s.utter_len == 0 && s.calib_len <= p.calib_len
    &&& !s.in_speech ==> s.silence_ms == 0 && s.utter_len == 0
    &&& s.silence_ms < VAD_SILENCE_MS
    &&& s.utter_len < p.max_utter
}

/// Sizes the detector works with: a positive capture rate small enough for the counters.
pub open spec fn params_ok(p: VadParams) -> bool {
    &&& 1 <= p.frame_len <= 0x1_0000_0000
    &&& p.max_utter <= 0x20_0000_0000
    &&& p.max_utter > 0
    &&& p.calib_len <= 0x1_0000_0000
    &&& p.window_max <= 0x20_0000_0000
}

/// The sizes for any positive capture rate meet what the detectors require.
pub proof fn law_params_for_positive_rate(rate: u32)
    requires
        rate > 0,
    ensures
        params_ok(params_spec(rate)),
{
}

impl VadState {
    /// The detector before any audio.
    pub fn new() -> (s: VadState)
        ensures
            s == vad_init_spec(),
    {
        VadState { calibrated: false, calib_len: 0, in_speech: false, silence_ms: 0, utter_len: 0 }
    }

    /// Feeds one frame; `loud` tells whether its RMS level exceeds the threshold (ignored
    /// before calibration).
    pub fn step(&mut self, p: &VadParams, loud: bool) -> (a: VadAction)
        requires
            params_ok(*p),
            vad_wf(*p, *old(self)),
        ensures
            (*final(self), a) == vad_step_spec(*p, *old(self), loud),
    {
        if !self.calibrated {
            let cl = self.calib_len + p.frame_len;
            let done = cl >= p.calib_len;
            self.calib_len = cl;
            self.calibrated = done;
            return VadAction {
                measure: true,
                calibrate: done,
                append: false,
                flush: false,
                transcribe: false,
                flushed_len: 0,
            };
        }
        let append = loud || self.in_speech;
        let sil1: u64 = if loud {
            0
        } else if self.in_speech {
            self.silence_ms + FRAME_MS
        } else {
            self.silence_ms
        };
        let len1: u64 = if append {
            self.utter_len + p.frame_len
        } else {
            self.utter_len
        };
        if (!loud && self.in_speech && sil1 >= VAD_SILENCE_MS) || len1 >= p.max_utter {
            self.in_speech = false;
            self.silence_ms = 0;
            self.utter_len = 0;
            VadAction {
                measure: false,
                calibrate: false,
                append,
                flush: true,
                transcribe: len1 >= p.min_utter,
                flushed_len: len1,
            }
        } else {
            self.in_speech = append;
            self.silence_ms = sil1;
            self.utter_len = len1;
            VadAction {
                measure: false,
                calibrate: false,
                append,
                flush: false,
                transcribe: false,
                flushed_len: 0,
            }
        }
    }

    /// When listening stops: whether the unfinished utterance is long enough to transcribe
    /// (it is emptied either way).
    pub fn finish(&self, p: &VadParams) -> (transcribe: bool)
        ensures
            transcribe == (self.utter_len >= p.min_utter),
    {
        self.utter_len >= p.min_utter
    }
}

/// Every frame keeps the detector's invariant.
pub proof fn law_vad_step_keeps_wf(p: VadParams, s: VadState, loud: bool)
    requires
        params_ok(p),
        vad_wf(p, s),
    ensures
        vad_wf(p, vad_step_spec(p, s, loud).0),
{
}

/// An utterance is transcribed only when it is at least 0.25 s long, and none is longer
/// than 20 s plus one frame; an utterance ends only when it has audio.
pub proof fn law_vad_flush_bounds(p: VadParams, s: VadState, loud: bool)
    requires
        params_ok(p),
        vad_wf(p, s),
    ensures
        ({
            let a = vad_step_spec(p, s, loud).1;
            &&& a.transcribe ==> a.flush && a.flushed_len >= p.min_utter
            &&& a.flush ==> a.flushed_len > 0 && a.flushed_len < p.max_utter + p.frame_len
            &&& a.flush ==> vad_step_spec(p, s, loud).0.utter_len == 0
        }),
{
}

/// The silence count measures consecutive quiet time: after calibration a loud frame sets
/// it to 0 and continues (or starts) the utterance, which a loud frame ends only at the
/// 20 s cap; a quiet frame inside an utterance adds exactly 30 ms unless it ends the
/// utterance, and it ends it at a pause only once the quiet time reaches 600 ms.
pub proof fn law_vad_silence_counts_quiet_time(p: VadParams, s: VadState, loud: bool)
    requires
        params_ok(p),
        vad_wf(p, s),
        s.calibrated,
    ensures
        ({
            let (n, a) = vad_step_spec(p, s, loud);
            &&& n.silence_ms == 0 <== loud
            &&& loud && !a.flush ==> n.in_speech && n.utter_len == s.utter_len + p.frame_len
            &&& loud && a.flush ==> a.flushed_len >= p.max_utter
            &&& !loud && s.in_speech && !a.flush ==> n.silence_ms == s.silence_ms + FRAME_MS
                && n.in_speech
            &&& !loud && a.flush ==> s.silence_ms + FRAME_MS >= VAD_SILENCE_MS || a.flushed_len
                >= p.max_utter
            &&& n.calibrated
        }),
{
}

/// A loud frame after calibration is always kept, and a quiet frame outside an utterance
/// is always dropped.
pub proof fn law_vad_keeps_speech(p: VadParams, s: VadState, loud: bool)
    requires
        params_ok(p),
        vad_wf(p, s),
        s.calibrated,
    ensures
        loud ==> vad_step_spec(p, s, loud).1.append,
        !loud && !s.in_speech ==> !vad_step_spec(p, s, loud).1.append && vad_step_spec(p, s, loud).0 == s,
{
}

// ---------------------------------------------------------------------------
// Sliding window: one line redrawn while speaking, committed at a pause
// ---------------------------------------------------------------------------

/// The state of the sliding-window mode.
#[derive(Clone, Copy, Debug, PartialEq, Eq)]
pub struct SlidingState {
    pub calibrated: bool,
    pub calib_len: u64,
    /// Samples in the window.
    pub window_len: u64,
    /// Quiet time since the last loud frame.
    pub silence_ms: u64,
    /// A loud frame arrived since the last tick.
    pub had_speech: bool,
    /// A partial line is shown and not yet committed.
    pub has_line: bool,
}

/// What the caller does with a frame in the sliding mode.
#[derive(Clone, Copy, Debug, PartialEq, Eq)]
pub struct SlidingFrameAction {
    /// Add the frame to the calibration audio.
    pub measure: bool,
    /// The calibration audio is complete: set the threshold from it.
    pub calibrate: bool,
    /// Add the frame to the window.
    pub append: bool,
}

/// What the caller does at a tick (after the frames that arrived).
#[derive(Clone, Copy, Debug, PartialEq, Eq)]
pub enum SlidingDecision {
    /// Nothing to do.
    Idle,
    /// Print the partial line for good, then empty the line and the window.
    Commit,
    /// Transcribe the window again and redraw the partial line.
    Retranscribe,
}

/// A tick's instructions: first drop `drop` samples from the window's front.
#[derive(Clone, Copy, Debug, PartialEq, Eq)]
pub struct SlidingTick {
    pub drop: u64,
    pub decision: SlidingDecision,
}

pub open spec fn sliding_init_spec() -> SlidingState {
    SlidingState {
        calibrated: false,
        calib_len: 0,
        window_len: 0,
        silence_ms: 0,
        had_speech: false,
        has_line: false,
    }
}

/// One frame: measured before calibration; afterwards added to the window, a loud frame
/// marking speech and clearing the silence, a quiet one adding 30 ms of silence.
pub open spec fn sliding_frame_spec(p: VadParams, s: SlidingState, loud: bool) -> (SlidingState, SlidingFrameAction) {
    if !s.calibrated {
        let cl = (s.calib_len + p.frame_len) as u64;
        let done = cl >= p.calib_len;
        (
            SlidingState { calibrated: done, calib_len: cl, ..s },
            SlidingFrameAction { measure: true, calibrate: done, append: false },
        )
    } else {
        (
            SlidingState {
                window_len: (s.window_len + p.frame_len) as u64,
                silence_ms: if loud {
                    0
                } else if s.silence_ms + FRAME_MS > u64::MAX {
                    u64::MAX
                } else {
                    (s.silence_ms + FRAME_MS) as u64
                },
                had_speech: s.had_speech || loud,
                ..s
            },
            SlidingFrameAction { measure: false, calibrate: false, append: true },
        )
    }
}

/// A tick: the window is cut to its last 8 s; nothing happens before calibration or with
/// an empty window; after an 800 ms pause a shown line is committed and the window emptied;
/// otherwise the window is transcribed again when there was speech or a line is shown.
/// The speech mark is cleared for the next tick.
pub open spec fn sliding_tick_spec(p: VadParams, s: SlidingState) -> (SlidingState, SlidingTick) {
    let drop: u64 = if s.window_len > p.window_max {
        (s.window_len - p.window_max) as u64
    } else {
        0
    };
    let w: u64 = (s.window_len - drop) as u64;
    if !s.calibrated || w == 0 {
        (
            SlidingState { window_len: w, had_speech: false, ..s },
            SlidingTick { drop, decision: SlidingDecision::Idle },
        )
    } else if s.silence_ms >= SLIDING_SILENCE_MS && s.has_line {
        (
            SlidingState { window_len: 0, had_speech: false, has_line: false, ..s },
            SlidingTick { drop, decision: SlidingDecision::Commit },
        )
    } else if s.had_speech || s.has_line {
        (
            SlidingState { window_len: w, had_speech: false, ..s },
            SlidingTick { drop, decision: SlidingDecision::Retranscribe },
        )
    } else {
        (
            SlidingState { window_len: w, had_speech: false, ..s },
            SlidingTick { drop, decision: SlidingDecision::Idle },
        )
    }
}

/// The sliding mode's invariant: before calibration the window is empty and no line is
/// shown.
pub open spec fn sliding_wf(p: VadParams, s: SlidingState) -> bool {
    !s.calibrated ==> s.window_len == 0 && !s.has_line && s.calib_len <= p.calib_len
}

impl SlidingState {
    pub fn new() -> (s: SlidingState)
        ensures
            s == sliding_init_spec(),
    {
        SlidingState {
            calibrated: false,
            calib_len: 0,
            window_len: 0,
            silence_ms: 0,
            had_speech: false,
            has_line: false,
        }
    }

    /// Feeds one frame; `loud` tells whether it is above the threshold.
    pub fn frame(&mut self, p: &VadParams, loud: bool) -> (a: SlidingFrameAction)
        requires
            params_ok(*p),
            sliding_wf(*p, *old(self)),
            old(self).window_len + p.frame_len <= u64::MAX,
        ensures
            (*final(self), a) == sliding_frame_spec(*p, *old(self), loud),
    {
        if !self.calibrated {
            let cl = self.calib_len + p.frame_len;
            let done = cl >= p.calib_len;
            self.calib_len = cl;
            self.calibrated = done;
            return SlidingFrameAction { measure: true, calibrate: done, append: false };
        }
        self.window_len = self.window_len + p.frame_len;
        self.silence_ms = if loud {
            0
        } else {
            self.silence_ms.saturating_add(FRAME_MS)
        };
        self.had_speech = self.had_speech || loud;
        SlidingFrameAction { measure: false, calibrate: false, append: true }
    }

    /// The end of a poll: what to do with the window and the partial line.
    pub fn tick(&mut self, p: &VadParams) -> (t: SlidingTick)
        ensures
            (*final(self), t) == sliding_tick_spec(*p, *old(self)),
    {
        let drop: u64 = if self.window_len > p.window_max {
            self.window_len - p.window_max
        } else {
            0
        };
        let w = self.window_len - drop;
        let had = self.had_speech;
        self.window_len = w;
        self.had_speech = false;
        if !self.calibrated || w == 0 {
            SlidingTick { drop, decision: SlidingDecision::Idle }
        } else if self.silence_ms >= SLIDING_SILENCE_MS && self.has_line {
            self.window_len = 0;
            self.has_line = false;
            SlidingTick { drop, decision: SlidingDecision::Commit }
        } else if had || self.has_line {
            SlidingTick { drop, decision: SlidingDecision::Retranscribe }
        } else {
            SlidingTick { drop, decision: SlidingDecision::Idle }
        }
    }

    /// The window was transcribed: a non-empty text becomes the shown line.
    pub fn transcribed(&mut self, text_nonempty: bool)
        ensures
            *final(self) == (SlidingState { has_line: old(self).has_line || text_nonempty, ..*old(self) }),
    {
        if text_nonempty {
            self.has_line = true;
        }
    }

    /// When listening stops: whether a shown line remains to be committed.
    pub fn finish(&self) -> (commit: bool)
        ensures
            commit == self.has_line,
    {
        self.has_line
    }
}

/// Frames and ticks keep the sliding invariant; after a tick the window holds at most 8 s;
/// a commit happens only with a shown line and empties the window; the window is
/// transcribed only when calibrated and not empty.
pub proof fn law_sliding_steps(p: VadParams, s: SlidingState, loud: bool)
    requires
        params_ok(p),
        sliding_wf(p, s),
    ensures
        sliding_wf(p, sliding_frame_spec(p, s, loud).0),
        sliding_wf(p, sliding_tick_spec(p, s).0),
        sliding_tick_spec(p, s).0.window_len <= p.window_max,
        sliding_tick_spec(p, s).1.decision == SlidingDecision::Commit ==> s.has_line
            && sliding_tick_spec(p, s).0.window_len == 0 && !sliding_tick_spec(p, s).0.has_line,
        sliding_tick_spec(p, s).1.decision == SlidingDecision::Retranscribe ==> s.calibrated
            && sliding_tick_spec(p, s).0.window_len > 0,
        !sliding_tick_spec(p, s).0.had_speech,
{
}

/// In the sliding mode the silence count measures consecutive quiet time: after
/// calibration a loud frame sets it to 0 and marks speech, a quiet frame adds 30 ms and
/// leaves the speech mark as it was; every frame is added to the window. A tick commits
/// only after 800 ms of quiet since the last loud frame.
pub proof fn law_sliding_silence_counts_quiet_time(p: VadParams, s: SlidingState, loud: bool)
    requires
        params_ok(p),
        sliding_wf(p, s),
        s.calibrated,
        s.window_len + p.frame_len <= u64::MAX,
    ensures
        ({
            let (n, a) = sliding_frame_spec(p, s, loud);
            &&& loud ==> n.silence_ms == 0 && n.had_speech
            &&& !loud && s.silence_ms + FRAME_MS <= u64::MAX ==> n.silence_ms == s.silence_ms
                + FRAME_MS
            &&& !loud ==> n.had_speech == s.had_speech
            &&& a.append && n.window_len == s.window_len + p.frame_len
            &&& n.has_line == s.has_line && n.calibrated
        }),
        sliding_tick_spec(p, s).1.decision == SlidingDecision::Commit ==> s.silence_ms
            >= SLIDING_SILENCE_MS,
        sliding_tick_spec(p, s).0.silence_ms == s.silence_ms,
{
}

} // verus!
