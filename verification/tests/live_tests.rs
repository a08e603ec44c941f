use t_whisper::live::{
    char_width, columns_width, committed_text, joined_text, partial_width, stamp_or, term_width,
    truncate_tail, SlidingDecision, SlidingState, VadParams, VadState,
};

#[test]
fn widths() {
    assert_eq!(char_width('a'), 1);
    assert_eq!(char_width('中'), 2);
    assert_eq!(char_width('한'), 2);
    assert_eq!(char_width('，'), 2);
    assert_eq!(char_width('é'), 1);
}

#[test]
fn tail_truncation() {
    assert_eq!(truncate_tail("hello", 10), "hello");
    assert_eq!(truncate_tail("hello world", 5), "world");
    assert_eq!(truncate_tail("中文字幕", 5), "字幕");
    assert_eq!(truncate_tail("ab中", 3), "b中");
    assert_eq!(truncate_tail("中", 1), "");
    assert_eq!(truncate_tail("", 0), "");
}

#[test]
fn terminal_width() {
    assert_eq!(term_width(&Some("120".to_string()), &None), 120);
    assert_eq!(term_width(&Some("0".to_string()), &Some(" 80\n".to_string())), 80);
    assert_eq!(term_width(&Some("wide".to_string()), &Some("x".to_string())), 100);
    assert_eq!(term_width(&None, &None), 100);
    assert_eq!(columns_width(&Some(" 90".to_string())), None);
    assert_eq!(columns_width(&Some("+90".to_string())), Some(90));
    assert_eq!(partial_width(100), 99);
    assert_eq!(partial_width(5), 10);
    assert_eq!(partial_width(0), 10);
    assert_eq!(partial_width(11), 10);
}

#[test]
fn session_text() {
    let texts: Vec<String> = vec!["一".into(), "".into(), "二".into()];
    assert_eq!(committed_text(&texts), "一\n二\n");
    let parts: Vec<String> = vec![" 你".into(), "好 ".into(), " ".into()];
    assert_eq!(joined_text(&parts), "你好");
    assert_eq!(stamp_or(&Some("20260523-101500\n".into()), "live"), "20260523-101500");
    assert_eq!(stamp_or(&Some("  ".into()), "recording"), "recording");
    assert_eq!(stamp_or(&None, "live"), "live");
}

#[test]
fn params_for_rate() {
    let p = VadParams::for_rate(48_000);
    assert_eq!(p.frame_len, 1440);
    assert_eq!(p.max_utter, 960_000);
    assert_eq!(p.min_utter, 12_000);
    assert_eq!(p.calib_len, 24_000);
    assert_eq!(p.window_max, 384_000);
    assert_eq!(VadParams::for_rate(16).frame_len, 1);
}

#[test]
fn vad_cuts_at_pause() {
    let p = VadParams::for_rate(1000); // frame 30, calib 500, min 250, max 20000
    let mut s = VadState::new();
    // calibration: 17 frames of 30 samples reach 510 >= 500
    for i in 0..17 {
        let a = s.step(&p, true);
        assert!(a.measure);
        assert_eq!(a.calibrate, i == 16);
        assert!(!a.append);
    }
    assert!(s.calibrated);
    // quiet frame outside speech: dropped
    let a = s.step(&p, false);
    assert!(!a.append && !a.flush);
    // 10 loud frames: 300 samples
    for _ in 0..10 {
        let a = s.step(&p, true);
        assert!(a.append && !a.flush);
    }
    assert!(s.in_speech);
    // 19 quiet frames: 570 ms of silence, still going
    for _ in 0..19 {
        let a = s.step(&p, false);
        assert!(a.append && !a.flush);
    }
    assert_eq!(s.silence_ms, 570);
    // the 20th quiet frame reaches 600 ms: flush and transcribe 900 samples
    let a = s.step(&p, false);
    assert!(a.append && a.flush && a.transcribe);
    assert_eq!(a.flushed_len, 900);
    assert!(!s.in_speech);
    assert_eq!(s.utter_len, 0);
    assert!(!s.finish(&p));
}

#[test]
fn vad_caps_utterance_length() {
    let p = VadParams::for_rate(100); // frame 3, calib 50, min 25, max 2000
    let mut s = VadState::new();
    while !s.calibrated {
        s.step(&p, false);
    }
    let mut flushes = 0;
    for _ in 0..700 {
        let a = s.step(&p, true);
        if a.flush {
            flushes += 1;
            assert_eq!(a.flushed_len, 2001);
            assert!(a.transcribe);
        }
    }
    assert_eq!(flushes, 1);
    assert_eq!(s.utter_len, 2100 - 2001);
    assert!(s.finish(&p));
}

#[test]
fn vad_short_utterance_not_transcribed() {
    let p = VadParams::for_rate(1000);
    let mut s = VadState::new();
    while !s.calibrated {
        s.step(&p, false);
    }
    // a pause-ended utterance always holds 600 ms of silence, so it is long enough
    s.step(&p, true);
    let mut last = s.step(&p, false);
    while !last.flush {
        last = s.step(&p, false);
    }
    assert!(last.transcribe);
    assert_eq!(last.flushed_len, 30 + 20 * 30);
    // an utterance cut short when listening stops is too short to transcribe
    s.step(&p, true);
    assert_eq!(s.utter_len, 30);
    assert!(!s.finish(&p));
}

#[test]
fn sliding_window_flow() {
    let p = VadParams::for_rate(1000); // frame 30, window 8000
    let mut s = SlidingState::new();
    while !s.calibrated {
        let a = s.frame(&p, true);
        assert!(a.measure && !a.append);
    }
    // nothing in the window yet
    assert_eq!(s.tick(&p).decision, SlidingDecision::Idle);
    // speech arrives: transcribe
    for _ in 0..4 {
        assert!(s.frame(&p, true).append);
    }
    let t = s.tick(&p);
    assert_eq!(t.decision, SlidingDecision::Retranscribe);
    assert_eq!(t.drop, 0);
    s.transcribed(true);
    // quiet but a line is shown: keep redrawing until 800 ms of silence
    for _ in 0..26 {
        s.frame(&p, false);
    }
    assert_eq!(s.tick(&p).decision, SlidingDecision::Retranscribe);
    s.frame(&p, false);
    let t = s.tick(&p);
    assert_eq!(t.decision, SlidingDecision::Commit);
    assert_eq!(s.window_len, 0);
    assert!(!s.finish());
    // a long stretch is cut to the window size
    for _ in 0..300 {
        s.frame(&p, true);
    }
    let t = s.tick(&p);
    assert_eq!(t.drop, 9000 - 8000);
    assert_eq!(s.window_len, 8000);
    assert_eq!(t.decision, SlidingDecision::Retranscribe);
    s.transcribed(false);
    assert!(!s.finish());
}

#[test]
fn rate_one_calibrates_on_first_frame() {
    let p = VadParams::for_rate(1);
    assert_eq!(p.frame_len, 1);
    assert_eq!(p.calib_len, 0);
    let mut s = VadState::new();
    let a = s.step(&p, false);
    assert!(a.measure && a.calibrate);
    assert!(s.calibrated);
    let mut w = SlidingState::new();
    let a = w.frame(&p, false);
    assert!(a.measure && a.calibrate);
    assert!(w.calibrated);
}
