//! Speaker labelling: each transcribed segment is given the speaker whose turn overlaps it
//! most, and the transcript gets a `[說話者 N]` header whenever the speaker changes.
use crate::env::{join_path_str, models_dir_chars, models_dir_spec, path_join, EnvVars};
use crate::text::{push_all, push_signed_decimal, push_str_chars, signed_decimal, chars_of, string_from_chars};
use crate::transcribe::{push_segment_line, segment_line, Segment};
use vstd::prelude::*;

verus! {

/// A stretch of audio attributed to one speaker (times in milliseconds).
pub struct Turn {
    pub start_ms: i64,
    pub end_ms: i64,
    pub speaker: i32,
}

/// The diarization models: the segmentation model and the speaker-embedding model.
pub open spec fn model_paths_spec(e: &EnvVars) -> (Seq<char>, Seq<char>) {
    let d = path_join(models_dir_spec(e), "diarize"@);
    (path_join(d, "segmentation.onnx"@), path_join(d, "embedding.onnx"@))
}

/// Where the diarization models are expected.
pub fn model_paths(e: &EnvVars) -> (r: (String, String))
    ensures
        r.0@ == model_paths_spec(e).0,
        r.1@ == model_paths_spec(e).1,
{
    let d = join_path_str(models_dir_chars(e).as_slice(), "diarize");
    let seg = join_path_str(d.as_slice(), "segmentation.onnx");
    let emb = join_path_str(d.as_slice(), "embedding.onnx");
    (string_from_chars(&seg), string_from_chars(&emb))
}

/// How long (in milliseconds) a segment and a turn overlap; 0 when they do not.
pub open spec fn overlap(s: Segment, t: Turn) -> int {
    let hi: int = if s.end_ms < t.end_ms {
        s.end_ms as int
    } else {
        t.end_ms as int
    };
    let lo: int = if s.start_ms > t.start_ms {
        s.start_ms as int
    } else {
        t.start_ms as int
    };
    if hi - lo > 0 {
        hi - lo
    } else {
        0
    }
}

/// Scanning the turns in order, the index of the turn with the largest positive overlap so
/// far (the first of equals), with that overlap; `(None, 0)` when none overlaps.
pub open spec fn best_turn(s: Segment, ts: Seq<Turn>) -> (Option<int>, int)
    decreases ts.len(),
{
    if ts.len() == 0 {
        (None, 0)
    } else {
        let (b, o) = best_turn(s, ts.drop_last());
        let ov = overlap(s, ts.last());
        if ov > o {
            (Some(ts.len() - 1), ov)
        } else {
            (b, o)
        }
    }
}

/// The speaker of a segment: that of the turn overlapping it most, or -1 when no turn
/// overlaps it.
pub open spec fn speaker_of(s: Segment, ts: Seq<Turn>) -> i32 {
    match best_turn(s, ts).0 {
        Some(k) => ts[k].speaker,
        None => -1i32,
    }
}

/// The overlap of the best turn, and where it stands.
pub proof fn lemma_best_turn(s: Segment, ts: Seq<Turn>)
    ensures
        best_turn(s, ts).1 >= 0,
        best_turn(s, ts).0 is None ==> best_turn(s, ts).1 == 0,
        best_turn(s, ts).0 matches Some(k) ==> 0 <= k < ts.len() && best_turn(s, ts).1 == overlap(s, ts[k]) && best_turn(s, ts).1 > 0,
        forall|j: int| 0 <= j < ts.len() ==> overlap(s, #[trigger] ts[j]) <= best_turn(s, ts).1,
        best_turn(s, ts).0 matches Some(k) ==> forall|j: int| 0 <= j < k ==> overlap(s, #[trigger] ts[j]) < best_turn(s, ts).1,
    decreases ts.len(),
{
    if ts.len() > 0 {
        let p = ts.drop_last();
        lemma_best_turn(s, p);
        assert forall|j: int| 0 <= j < p.len() implies p[j] == ts[j] by {}
    }
}

/// A segment's speaker is the turn with the largest time overlap (the first such turn when
/// several tie); it is -1 exactly when no turn overlaps the segment.
pub proof fn law_speaker_has_largest_overlap(s: Segment, ts: Seq<Turn>)
    ensures
        (forall|j: int| 0 <= j < ts.len() ==> overlap(s, #[trigger] ts[j]) == 0) ==> speaker_of(s, ts) == -1,
        (exists|j: int| 0 <= j < ts.len() && overlap(s, #[trigger] ts[j]) > 0) ==> exists|k: int|
            {
                &&& 0 <= k < ts.len()
                &&& speaker_of(s, ts) == ts[k].speaker
                &&& overlap(s, ts[k]) > 0
                &&& forall|j: int| 0 <= j < ts.len() ==> overlap(s, #[trigger] ts[j]) <= overlap(s, ts[k])
                &&& forall|j: int| 0 <= j < k ==> overlap(s, #[trigger] ts[j]) < overlap(s, ts[k])
            },
{
    lemma_best_turn(s, ts);
    if exists|j: int| 0 <= j < ts.len() && overlap(s, #[trigger] ts[j]) > 0 {
        let j = choose|j: int| 0 <= j < ts.len() && overlap(s, #[trigger] ts[j]) > 0;
        assert(overlap(s, ts[j]) <= best_turn(s, ts).1);
        let k = best_turn(s, ts).0->0;
        assert(speaker_of(s, ts) == ts[k].speaker);
    }
}

fn min_i64(a: i64, b: i64) -> (r: i64)
    ensures
        r == if a < b {
            a
        } else {
            b
        },
{
    if a < b {
        a
    } else {
        b
    }
}

fn max_i64(a: i64, b: i64) -> (r: i64)
    ensures
        r == if a > b {
            a
        } else {
            b
        },
{
    if a > b {
        a
    } else {
        b
    }
}

/// The speaker whose turn overlaps the segment most (the first of equals), or -1 when no
/// turn overlaps it.
pub fn speaker_for(seg: &Segment, turns: &Vec<Turn>) -> (r: i32)
    ensures
        r == speaker_of(*seg, turns@),
{
    let mut best: i32 = -1;
    let mut best_ov: i128 = 0;
    let ghost mut best_idx: Option<int> = None;
    let mut i: usize = 0;
    while i < turns.len()
        invariant
            i <= turns@.len(),
            best_turn(*seg, turns@.take(i as int)) == (best_idx, best_ov as int),
            best == match best_idx {
                Some(k) => turns@[k].speaker,
                None => -1i32,
            },
            best_idx matches Some(k) ==> 0 <= k < i,
        decreases turns@.len() - i,
    {
        proof {
            assert(turns@.take(i + 1).drop_last() =~= turns@.take(i as int));
        }
        let t = &turns[i];
        let hi = min_i64(seg.end_ms, t.end_ms) as i128;
        let lo = max_i64(seg.start_ms, t.start_ms) as i128;
        let d = hi - lo;
        let ov: i128 = if d > 0 {
            d
        } else {
            0
        };
        if ov > best_ov {
            best_ov = ov;
            best = t.speaker;
            proof {
                best_idx = Some(i as int);
            }
        }
        i += 1;
    }
    proof {
        assert(turns@.take(turns@.len() as int) =~= turns@);
    }
    best
}

/// The largest speaker number among the turns, if any.
pub open spec fn max_speaker(ts: Seq<Turn>) -> Option<i32>
    decreases ts.len(),
{
    if ts.len() == 0 {
        None
    } else {
        match max_speaker(ts.drop_last()) {
            Some(m) => Some(if ts.last().speaker > m {
                ts.last().speaker
            } else {
                m
            }),
            None => Some(ts.last().speaker),
        }
    }
}

/// The number of speakers reported: the largest speaker number plus one, or 0 without
/// turns.
pub open spec fn speaker_count_spec(ts: Seq<Turn>) -> int {
    match max_speaker(ts) {
        Some(m) => m + 1,
        None => 0,
    }
}

/// The number of speakers detected (the largest speaker number plus one).
pub fn count_speakers(turns: &Vec<Turn>) -> (r: i32)
    requires
        forall|j: int| 0 <= j < turns@.len() ==> (#[trigger] turns@[j]).speaker < i32::MAX,
    ensures
        r == speaker_count_spec(turns@),
{
    let mut m: Option<i32> = None;
    let mut i: usize = 0;
    while i < turns.len()
        invariant
            i <= turns@.len(),
            m == max_speaker(turns@.take(i as int)),
            m matches Some(v) ==> exists|j: int| 0 <= j < i && turns@[j].speaker == v,
        decreases turns@.len() - i,
    {
        proof {
            assert(turns@.take(i + 1).drop_last() =~= turns@.take(i as int));
        }
        let s = turns[i].speaker;
        m = match m {
            Some(v) => Some(if s > v {
                s
            } else {
                v
            }),
            None => Some(s),
        };
        i += 1;
    }
    proof {
        assert(turns@.take(turns@.len() as int) =~= turns@);
    }
    match m {
        Some(v) => v + 1,
        None => 0,
    }
}

/// The `[說話者 N]` header (N is the speaker number plus one), set off by newlines.
pub open spec fn speaker_header(spk: i32) -> Seq<char> {
    "\n[說話者 "@ + signed_decimal(spk + 1) + "]\n"@
}

/// Merging segments with their speakers: the text produced so far and the last speaker
/// written (`i32::MIN` before any). A segment whose text is empty is skipped; a header is
/// written when the speaker differs from the last one.
pub open spec fn merge_spec(segs: Seq<Segment>, turns: Seq<Turn>, texts: Seq<Seq<char>>) -> (Seq<char>, i32)
    decreases segs.len(),
{
    if segs.len() == 0 || texts.len() == 0 {
        (Seq::empty(), i32::MIN)
    } else {
        let (out, last) = merge_spec(segs.drop_last(), turns, texts.drop_last());
        let s = segs.last();
        let text = texts.last();
        let spk = speaker_of(s, turns);
        if text.len() == 0 {
            (out, last)
        } else if spk != last {
            (out + speaker_header(spk) + segment_line(s.start_ms, s.end_ms, text) + seq!['\n'], spk)
        } else {
            (out + segment_line(s.start_ms, s.end_ms, text) + seq!['\n'], last)
        }
    }
}

/// The speaker of the last segment whose text is not empty (`i32::MIN` when there is none).
pub open spec fn last_printed_speaker(segs: Seq<Segment>, turns: Seq<Turn>, texts: Seq<Seq<char>>) -> i32
    decreases segs.len(),
{
    if segs.len() == 0 || texts.len() == 0 {
        i32::MIN
    } else if texts.last().len() > 0 {
        speaker_of(segs.last(), turns)
    } else {
        last_printed_speaker(segs.drop_last(), turns, texts.drop_last())
    }
}

/// The speaker the merge compares with is that of the last line written: the speaker of
/// the last segment with a non-empty text, segments with empty text playing no part.
pub proof fn law_merge_last_speaker(segs: Seq<Segment>, turns: Seq<Turn>, texts: Seq<Seq<char>>)
    requires
        texts.len() == segs.len(),
    ensures
        merge_spec(segs, turns, texts).1 == last_printed_speaker(segs, turns, texts),
    decreases segs.len(),
{
    if segs.len() > 0 {
        law_merge_last_speaker(segs.drop_last(), turns, texts.drop_last());
    }
}

/// A segment with empty text writes nothing and changes nothing: the merge of the segments
/// with it appended is the merge without it.
pub proof fn law_merge_skips_empty(segs: Seq<Segment>, turns: Seq<Turn>, texts: Seq<Seq<char>>, s: Segment)
    requires
        texts.len() == segs.len(),
    ensures
        merge_spec(segs.push(s), turns, texts.push(Seq::empty())) == merge_spec(segs, turns, texts),
{
    assert(segs.push(s).drop_last() =~= segs);
    assert(texts.push(Seq::<char>::empty()).drop_last() =~= texts);
}

/// A segment with non-empty text appends its line, preceded by a speaker header exactly
/// when its speaker differs from that of the last line written; nothing written earlier
/// changes.
pub proof fn law_merge_header_on_change(
    segs: Seq<Segment>,
    turns: Seq<Turn>,
    texts: Seq<Seq<char>>,
    s: Segment,
    t: Seq<char>,
)
    requires
        texts.len() == segs.len(),
        t.len() > 0,
    ensures
        ({
            let before = merge_spec(segs, turns, texts).0;
            let after = merge_spec(segs.push(s), turns, texts.push(t)).0;
            let spk = speaker_of(s, turns);
            let line = segment_line(s.start_ms, s.end_ms, t) + seq!['\n'];
            &&& spk != last_printed_speaker(segs, turns, texts) ==> after == before + speaker_header(spk) + line
            &&& spk == last_printed_speaker(segs, turns, texts) ==> after == before + line
        }),
{
    assert(segs.push(s).drop_last() =~= segs);
    assert(texts.push(t).drop_last() =~= texts);
    law_merge_last_speaker(segs, turns, texts);
}

/// The transcript with speaker labels, as the pair (text to print, text to save), which
/// are the same transcript: `texts[i]` is the text to show for `segs[i]` (already
/// converted); consecutive segments of one speaker share one header.
pub fn merge_lines(segs: &Vec<Segment>, turns: &Vec<Turn>, texts: &Vec<String>) -> (r: (String, String))
    requires
        texts@.len() == segs@.len(),
        forall|j: int| 0 <= j < turns@.len() ==> (#[trigger] turns@[j]).speaker < i32::MAX,
    ensures
        r.0@ == merge_spec(segs@, turns@, texts@.map_values(|t: String| t@)).0,
        r.1@ == r.0@,
{
    let ghost tv = texts@.map_values(|t: String| t@);
    let mut out: Vec<char> = Vec::new();
    let mut last: i32 = i32::MIN;
    let mut i: usize = 0;
    while i < segs.len()
        invariant
            i <= segs@.len(),
            texts@.len() == segs@.len(),
            tv == texts@.map_values(|t: String| t@),
            forall|j: int| 0 <= j < turns@.len() ==> (#[trigger] turns@[j]).speaker < i32::MAX,
            (out@, last) == merge_spec(segs@.take(i as int), turns@, tv.take(i as int)),
        decreases segs@.len() - i,
    {
        proof {
            assert(segs@.take(i + 1).drop_last() =~= segs@.take(i as int));
            assert(tv.take(i + 1).drop_last() =~= tv.take(i as int));
        }
        let s = &segs[i];
        let spk = speaker_for(s, turns);
        let text = chars_of(texts[i].as_str());
        if text.len() > 0 {
            if spk != last {
                let ghost before = out@;
                push_str_chars(&mut out, "\n[說話者 ");
                push_signed_decimal(&mut out, spk as i64 + 1);
                push_str_chars(&mut out, "]\n");
                assert(out@ =~= before + speaker_header(spk));
                last = spk;
            }
            push_segment_line(&mut out, s.start_ms, s.end_ms, text.as_slice());
            out.push('\n');
        }
        i += 1;
    }
    proof {
        assert(segs@.take(segs@.len() as int) =~= segs@);
        assert(tv.take(tv.len() as int) =~= tv);
    }
    (string_from_chars(&out), string_from_chars(&out))
}

} // verus!
