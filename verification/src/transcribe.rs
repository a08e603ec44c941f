//! Transcribed segments and their timestamp lines.
use crate::text::{
    digit_char, all_digits, join_nl, lemma_join_nl_push, digits_value, lemma_decimal_digits, lemma_zero_pad_digits, chars_of, decimal, push_all, push_str_chars, push_zero_padded, string_from_chars, trim,
    trim_chars, zero_pad,
};
use vstd::prelude::*;

verus! {

/// A transcribed piece of speech, with absolute times in milliseconds.
pub struct Segment {
    pub start_ms: i64,
    pub end_ms: i64,
    pub text: String,
}

/// `[HH:MM:SS.mmm]` text of a time in milliseconds (negative times show as zero; the hour
/// field grows beyond two digits when needed).
pub open spec fn ts_spec(ms: i64) -> Seq<char> {
    let t: int = if ms < 0 {
        0
    } else {
        ms as int
    };
    zero_pad(decimal((t / 3_600_000) as nat), 2) + seq![':'] + zero_pad(
        decimal(((t % 3_600_000) / 60_000) as nat),
        2,
    ) + seq![':'] + zero_pad(decimal(((t % 60_000) / 1000) as nat), 2) + seq!['.'] + zero_pad(
        decimal((t % 1000) as nat),
        3,
    )
}

/// Formats a time in milliseconds as `HH:MM:SS.mmm`.
pub fn fmt_ts(ms: i64) -> (r: String)
    ensures
        r@ == ts_spec(ms),
{
    let total: i64 = if ms < 0 {
        0
    } else {
        ms
    };
    let h = (total / 3_600_000) as u64;
    let m = ((total % 3_600_000) / 60_000) as u64;
    let s = ((total % 60_000) / 1000) as u64;
    let mi = (total % 1000) as u64;
    let mut out: Vec<char> = Vec::new();
    push_zero_padded(&mut out, h, 2);
    out.push(':');
    push_zero_padded(&mut out, m, 2);
    out.push(':');
    push_zero_padded(&mut out, s, 2);
    out.push('.');
    push_zero_padded(&mut out, mi, 3);
    proof {
        assert(out@ =~= ts_spec(ms));
    }
    string_from_chars(&out)
}

/// The fields of a timestamp denote the time: hours, minutes (< 60), seconds (< 60) and
/// milliseconds (< 1000) add up to the time, negative times counting as zero.
pub proof fn law_ts_fields(ms: i64)
    ensures
        ({
            let t: int = if ms < 0 {
                0
            } else {
                ms as int
            };
            let h = t / 3_600_000;
            let m = (t % 3_600_000) / 60_000;
            let s = (t % 60_000) / 1000;
            let mi = t % 1000;
            &&& 0 <= m < 60
            &&& 0 <= s < 60
            &&& 0 <= mi < 1000
            &&& h * 3_600_000 + m * 60_000 + s * 1000 + mi == t
        }),
{
    let t: int = if ms < 0 {
        0
    } else {
        ms as int
    };
    let h = t / 3_600_000;
    let r1 = t % 3_600_000;
    let m = r1 / 60_000;
    let r2 = r1 % 60_000;
    assert(t % 60_000 == r2) by (nonlinear_arith)
        requires
            t >= 0,
            h == t / 3_600_000,
            r1 == t % 3_600_000,
            r2 == r1 % 60_000,
    {
        assert(t == h * 3_600_000 + r1);
        assert(r1 == (r1 / 60_000) * 60_000 + r2);
        assert(t == (h * 60 + r1 / 60_000) * 60_000 + r2);
    }
    assert(h * 3_600_000 + m * 60_000 + (r2 / 1000) * 1000 + r2 % 1000 == t) by (nonlinear_arith)
        requires
            t >= 0,
            h == t / 3_600_000,
            r1 == t % 3_600_000,
            m == r1 / 60_000,
            r2 == r1 % 60_000,
    {
    }
    assert(t % 1000 == r2 % 1000) by (nonlinear_arith)
        requires
            t >= 0,
            r2 == t % 60_000,
    {
        assert(t == (t / 60_000) * 60 * 1000 + r2);
    }
}

/// The transcript line of a segment: `[start --> end]  text`.
pub open spec fn segment_line(start_ms: i64, end_ms: i64, text: Seq<char>) -> Seq<char> {
    seq!['['] + ts_spec(start_ms) + " --> "@ + ts_spec(end_ms) + "]  "@ + text
}

/// Appends `segment_line` for the given times and text.
pub fn push_segment_line(out: &mut Vec<char>, start_ms: i64, end_ms: i64, text: &[char])
    ensures
        final(out)@ == old(out)@ + segment_line(start_ms, end_ms, text@),
{
    out.push('[');
    let a = chars_of(fmt_ts(start_ms).as_str());
    push_all(out, a.as_slice());
    push_str_chars(out, " --> ");
    let b = chars_of(fmt_ts(end_ms).as_str());
    push_all(out, b.as_slice());
    push_str_chars(out, "]  ");
    push_all(out, text);
    assert(final(out)@ =~= old(out)@ + segment_line(start_ms, end_ms, text@));
}

/// The transcript of segments, one `segment_line` per segment with its displayed text,
/// each ending in a newline.
pub open spec fn segments_body_spec(segs: Seq<Segment>, texts: Seq<Seq<char>>) -> Seq<char>
    decreases segs.len(),
{
    if segs.len() == 0 || texts.len() == 0 {
        Seq::empty()
    } else {
        segments_body_spec(segs.drop_last(), texts.drop_last()) + segment_line(
            segs.last().start_ms,
            segs.last().end_ms,
            texts.last(),
        ) + seq!['\n']
    }
}

/// The body of the transcript file: `texts[i]` is the text to show for `segs[i]` (already
/// converted to Traditional Chinese when that is enabled).
pub fn segments_body(segs: &Vec<Segment>, texts: &Vec<String>) -> (r: String)
    requires
        texts@.len() == segs@.len(),
    ensures
        r@ == segments_body_spec(segs@, texts@.map_values(|t: String| t@)),
{
    let ghost tv = texts@.map_values(|t: String| t@);
    let mut out: Vec<char> = Vec::new();
    let mut i: usize = 0;
    while i < segs.len()
        invariant
            i <= segs@.len(),
            texts@.len() == segs@.len(),
            tv == texts@.map_values(|t: String| t@),
            out@ == segments_body_spec(segs@.take(i as int), tv.take(i as int)),
        decreases segs@.len() - i,
    {
        proof {
            assert(segs@.take(i + 1).drop_last() =~= segs@.take(i as int));
            assert(tv.take(i + 1).drop_last() =~= tv.take(i as int));
        }
        let t = chars_of(texts[i].as_str());
        push_segment_line(&mut out, segs[i].start_ms, segs[i].end_ms, t.as_slice());
        out.push('\n');
        i += 1;
    }
    proof {
        assert(segs@.take(segs@.len() as int) =~= segs@);
        assert(tv.take(tv.len() as int) =~= tv);
    }
    string_from_chars(&out)
}

/// The transcript holds one line per segment, in order: line `i` is exactly
/// `segment_line` of segment `i`'s own start and end times and text `i`, and each line ends
/// in a newline.
pub proof fn law_segments_body_lines(segs: Seq<Segment>, texts: Seq<Seq<char>>)
    requires
        texts.len() == segs.len(),
    ensures
        segments_body_spec(segs, texts) == join_nl(
            Seq::new(segs.len(), |i: int| segment_line(segs[i].start_ms, segs[i].end_ms, texts[i])),
        ),
    decreases segs.len(),
{
    let ls = Seq::new(segs.len(), |i: int| segment_line(segs[i].start_ms, segs[i].end_ms, texts[i]));
    if segs.len() > 0 {
        let a = segs.drop_last();
        let b = texts.drop_last();
        law_segments_body_lines(a, b);
        let la = Seq::new(a.len(), |i: int| segment_line(a[i].start_ms, a[i].end_ms, b[i]));
        assert(ls =~= la.push(ls.last()));
        lemma_join_nl_push(la, ls.last());
    } else {
        assert(ls.len() == 0);
    }
}

impl Segment {
    /// A segment from whisper's output: its timestamps count tens of milliseconds, and its
    /// text is trimmed.
    pub fn from_whisper(t0: i64, t1: i64, raw_text: &str) -> (s: Segment)
        requires
            -922_337_203_685_477_580 <= t0 <= 922_337_203_685_477_580,
            -922_337_203_685_477_580 <= t1 <= 922_337_203_685_477_580,
        ensures
            s.start_ms == t0 * 10,
            s.end_ms == t1 * 10,
            s.text@ == trim(raw_text@),
    {
        let t = trim_chars(chars_of(raw_text).as_slice());
        Segment { start_ms: t0 * 10, end_ms: t1 * 10, text: string_from_chars(&t) }
    }
}

/// Reading a timestamp `H:MM:SS.mmm` back: at least two hour digits, minutes and seconds of
/// two digits below 60, three millisecond digits; the time in milliseconds.
pub open spec fn read_ts(s: Seq<char>) -> Option<int> {
    let n = s.len() as int;
    if n < 12 {
        None
    } else {
        let hh = s.take(n - 10);
        let mm = s.subrange(n - 9, n - 7);
        let ss = s.subrange(n - 6, n - 4);
        let ff = s.skip(n - 3);
        if all_digits(hh) && all_digits(mm) && all_digits(ss) && all_digits(ff) && s[n - 10] == ':'
            && s[n - 7] == ':' && s[n - 4] == '.' && digits_value(mm) < 60 && digits_value(ss) < 60 {
            Some(
                digits_value(hh) * 3_600_000 + digits_value(mm) * 60_000 + digits_value(ss) * 1000
                    + digits_value(ff),
            )
        } else {
            None
        }
    }
}

/// A formatted timestamp reads back as the time it shows: for a non-negative time, the text
/// is well formed (hours never wrap) and denotes exactly that many milliseconds; a negative
/// time shows as zero.
pub proof fn law_ts_reads_back(ms: i64)
    ensures
        ms >= 0 ==> read_ts(ts_spec(ms)) == Some(ms as int),
        ms < 0 ==> ts_spec(ms) == ts_spec(0),
        ms < 0 ==> ts_spec(ms) == "00:00:00.000"@,
        ms < 0 ==> read_ts(ts_spec(ms)) == Some(0int),
{
    law_ts_fields(ms);
    let t: int = if ms < 0 {
        0
    } else {
        ms as int
    };
    let h = t / 3_600_000;
    let m = (t % 3_600_000) / 60_000;
    let sec = (t % 60_000) / 1000;
    let f = t % 1000;
    lemma_decimal_digits(h as nat);
    lemma_decimal_digits(m as nat);
    lemma_decimal_digits(sec as nat);
    lemma_decimal_digits(f as nat);
    let ph = zero_pad(decimal(h as nat), 2);
    let pm = zero_pad(decimal(m as nat), 2);
    let ps = zero_pad(decimal(sec as nat), 2);
    let pf = zero_pad(decimal(f as nat), 3);
    lemma_zero_pad_digits(decimal(h as nat), 2);
    lemma_zero_pad_digits(decimal(m as nat), 2);
    lemma_zero_pad_digits(decimal(sec as nat), 2);
    lemma_zero_pad_digits(decimal(f as nat), 3);
    let text = ts_spec(ms);
    assert(text =~= ph + seq![':'] + pm + seq![':'] + ps + seq!['.'] + pf);
    let l = ph.len() as int;
    let n = text.len() as int;
    assert(pm.len() == 2 && ps.len() == 2 && pf.len() == 3 && l >= 2);
    assert(n == l + 10);
    assert(text.take(n - 10) =~= ph);
    assert(text.subrange(n - 9, n - 7) =~= pm);
    assert(text.subrange(n - 6, n - 4) =~= ps);
    assert(text.skip(n - 3) =~= pf);
    assert(text[n - 10] == ':');
    assert(text[n - 7] == ':');
    assert(text[n - 4] == '.');
    if ms < 0 {
        law_ts_fields(0);
        reveal_strlit("00:00:00.000");
        assert(decimal(0) =~= seq!['0']) by {
            assert(digit_char(0) == '0');
        }
        assert(ph =~= seq!['0', '0']);
        assert(pf =~= seq!['0', '0', '0']);
        assert(text =~= "00:00:00.000"@);
    }
}

} // verus!
