use t_whisper::capture::{pick_device, DeviceChoice};
use t_whisper::cli::{doctor, live_model_name, model_name};
use t_whisper::env::{EnvVars, FileProbe};
use t_whisper::trad::{is_convertible, to_traditional, trad_extension};
use t_whisper::ui::{paint, render, Level};

#[test]
fn traditional_output() {
    assert_eq!(to_traditional("软件", true, Some("軟體\n\n".to_string())), "軟體");
    assert_eq!(to_traditional("软件", false, Some("軟體".to_string())), "软件");
    assert_eq!(to_traditional("软件", true, None), "软件");
    assert_eq!(to_traditional("a\n", true, Some("\n\n".to_string())), "");
    assert_eq!(to_traditional("x", true, Some("a\nb\n".to_string())), "a\nb");
}

#[test]
fn folder_conversion_selection() {
    assert!(is_convertible("/d/a.txt", "txt"));
    assert!(is_convertible("/d/a.srt", "srt"));
    assert!(is_convertible("/d/a.vtt", "vtt"));
    assert!(!is_convertible("/d/a.trad.txt", "txt"));
    assert!(!is_convertible("/d/a.md", "md"));
    assert!(!is_convertible("/d/a.TXT", "TXT"));
    assert_eq!(trad_extension(Some("srt")), "trad.srt");
    assert_eq!(trad_extension(None), "trad.txt");
}

#[test]
fn messages() {
    assert_eq!(paint("32", "ok", true), "\x1b[32mok\x1b[0m");
    assert_eq!(paint("32", "ok", false), "ok");
    assert_eq!(render(Level::Info, "hi", true), "hi");
    assert_eq!(render(Level::Success, "done", false), "✅ done");
    assert_eq!(render(Level::Warn, "w", false), "⚠️  w");
    assert_eq!(render(Level::Error, "e", true), "\x1b[31m錯誤：e\x1b[0m");
    assert_eq!(render(Level::Fix, "f", false), "修復：f");
    assert_eq!(render(Level::Dim, "d", true), "\x1b[2md\x1b[0m");
}

#[test]
fn device_choice() {
    let names: Vec<String> = vec!["MacBook Pro Microphone".into(), "BlackHole 2ch".into(), "BlackHole 16ch".into()];
    assert_eq!(pick_device("default", &names), DeviceChoice::Default);
    assert_eq!(pick_device("", &names), DeviceChoice::Default);
    assert_eq!(pick_device("BlackHole", &names), DeviceChoice::Named(1));
    assert_eq!(pick_device("MacBook", &names), DeviceChoice::Named(0));
    assert_eq!(pick_device("USB", &names), DeviceChoice::Default);
}

#[test]
fn model_choice_for_commands() {
    assert_eq!(live_model_name(true, None, "large-v3"), "turbo");
    assert_eq!(live_model_name(false, None, "large-v3"), "large-v3");
    assert_eq!(live_model_name(true, Some("large-v3"), "turbo"), "large-v3");
    assert_eq!(model_name(None, "large-v3"), "large-v3");
    assert_eq!(model_name(Some("/m/x.bin"), "turbo"), "/m/x.bin");
}

#[test]
fn environment_check() {
    let e = EnvVars {
        home: Some("/h".to_string()),
        tw_home: None,
        xdg_config_home: None,
        path: Some("/opt/homebrew/bin".to_string()),
    };
    let all = FileProbe {
        files: vec![
            "/opt/homebrew/bin/opencc".to_string(),
            "/h/models/whisper/ggml-large-v3.bin".to_string(),
        ],
    };
    let r = doctor(&e, Some("/opt/homebrew\n".to_string()), &all, 2);
    let texts: Vec<&str> = r.iter().map(|m| m.text.as_str()).collect();
    assert_eq!(
        texts,
        vec![
            "T-Whisper 環境檢查",
            "------------------------------------------------------------",
            "Homebrew（/opt/homebrew）",
            "opencc（簡轉繁）",
            "模型 large-v3（/h/models/whisper/ggml-large-v3.bin）",
            "麥克風可列出（2 個輸入裝置）",
            "------------------------------------------------------------",
            "一切就緒！試試：t-whisper file <音檔>",
        ]
    );
    assert_eq!(r[7].level, Level::Success);

    let none = FileProbe { files: vec![] };
    let r = doctor(&e, None, &none, 0);
    let last = r.last().unwrap();
    assert_eq!(last.level, Level::Warn);
    assert_eq!(last.text, "有 4 項待處理（見上方）");
    assert_eq!(r.len(), 8);
    assert_eq!(r[2].text, "找不到 Homebrew");
    assert_eq!(r[4].text, "尚無模型 → t-whisper models pull turbo");
}
