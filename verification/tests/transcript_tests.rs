use t_whisper::diarize::{count_speakers, merge_lines, speaker_for, Turn};
use t_whisper::transcribe::{fmt_ts, segments_body, Segment};

fn seg(a: i64, b: i64, t: &str) -> Segment {
    Segment {
        start_ms: a,
        end_ms: b,
        text: t.to_string(),
    }
}

fn turn(a: i64, b: i64, s: i32) -> Turn {
    Turn {
        start_ms: a,
        end_ms: b,
        speaker: s,
    }
}

#[test]
fn timestamps() {
    assert_eq!(fmt_ts(0), "00:00:00.000");
    assert_eq!(fmt_ts(3_723_004), "01:02:03.004");
    assert_eq!(fmt_ts(59_999), "00:00:59.999");
    assert_eq!(fmt_ts(-5), "00:00:00.000");
    assert_eq!(fmt_ts(360_000_000), "100:00:00.000");
    assert_eq!(fmt_ts(86_399_999), "23:59:59.999");
}

#[test]
fn segment_from_whisper_units() {
    let s = Segment::from_whisper(150, 320, "  你好  \n");
    assert_eq!(s.start_ms, 1500);
    assert_eq!(s.end_ms, 3200);
    assert_eq!(s.text, "你好");
}

#[test]
fn transcript_body() {
    let segs = vec![seg(0, 1500, "a"), seg(1500, 62_000, "b")];
    let texts = vec!["甲".to_string(), "乙".to_string()];
    assert_eq!(
        segments_body(&segs, &texts),
        "[00:00:00.000 --> 00:00:01.500]  甲\n[00:00:01.500 --> 00:01:02.000]  乙\n"
    );
    assert_eq!(segments_body(&vec![], &vec![]), "");
}

#[test]
fn speaker_with_largest_overlap() {
    let turns = vec![turn(0, 1000, 0), turn(800, 3000, 1), turn(2500, 4000, 2)];
    assert_eq!(speaker_for(&seg(0, 900, ""), &turns), 0);
    assert_eq!(speaker_for(&seg(700, 2600, ""), &turns), 1);
    assert_eq!(speaker_for(&seg(5000, 6000, ""), &turns), -1);
    // ties go to the first turn
    let tie = vec![turn(0, 500, 3), turn(500, 1000, 4)];
    assert_eq!(speaker_for(&seg(250, 750, ""), &tie), 3);
    assert_eq!(speaker_for(&seg(0, 100, ""), &vec![]), -1);
    // touching turns do not overlap
    assert_eq!(speaker_for(&seg(1000, 2000, ""), &vec![turn(0, 1000, 5)]), -1);
}

#[test]
fn speaker_count() {
    assert_eq!(count_speakers(&vec![]), 0);
    assert_eq!(count_speakers(&vec![turn(0, 1, 0), turn(1, 2, 2), turn(2, 3, 1)]), 3);
}

#[test]
fn merged_transcript() {
    let turns = vec![turn(0, 2000, 0), turn(2000, 5000, 1)];
    let segs = vec![
        seg(0, 1000, ""),
        seg(1000, 1900, ""),
        seg(2100, 3000, ""),
        seg(3000, 4000, ""),
        seg(4000, 4500, ""),
        seg(9000, 9500, ""),
    ];
    let texts: Vec<String> = ["一", "二", "三", "", "四", "五"]
        .iter()
        .map(|s| s.to_string())
        .collect();
    let (out, saved) = merge_lines(&segs, &turns, &texts);
    assert_eq!(saved, out);
    assert_eq!(
        out,
        "\n[說話者 1]\n[00:00:00.000 --> 00:00:01.000]  一\n[00:00:01.000 --> 00:00:01.900]  二\n\n[說話者 2]\n[00:00:02.100 --> 00:00:03.000]  三\n[00:00:04.000 --> 00:00:04.500]  四\n\n[說話者 0]\n[00:00:09.000 --> 00:00:09.500]  五\n"
    );
}
