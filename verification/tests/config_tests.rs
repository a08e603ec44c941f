use t_whisper::config::Config;
use t_whisper::env::EnvVars;

fn env_home(home: &str) -> EnvVars {
    EnvVars {
        home: Some(home.to_string()),
        tw_home: None,
        xdg_config_home: None,
        path: None,
    }
}

#[test]
fn defaults_when_file_missing() {
    let e = env_home("/Users/amy");
    let c = Config::load(None, &e);
    assert_eq!(c.lang, "zh");
    assert_eq!(c.model, "turbo");
    assert_eq!(c.beam, 5);
    assert_eq!(c.mic, "default");
    assert!(c.to_traditional);
    assert_eq!(c.outdir, "/Users/amy/whisper-transcripts");
}

#[test]
fn template_reads_back_as_defaults() {
    let e = env_home("/Users/amy");
    let text = Config::default_text();
    let c = Config::load(Some(text.as_str()), &e);
    let d = Config::default_for(&e);
    assert_eq!(c.lang, d.lang);
    assert_eq!(c.model, d.model);
    assert_eq!(c.beam, d.beam);
    assert_eq!(c.mic, d.mic);
    assert_eq!(c.to_traditional, d.to_traditional);
    assert_eq!(c.outdir, d.outdir);
}

#[test]
fn settings_with_comments_and_spaces() {
    let e = env_home("/h");
    let text = "# comment\n\n  lang = en   # English\nmodel=large-v3\r\nbeam=8\nmic= MacBook \nto_traditional=0\noutdir=/tmp/out\nunknown=1\nnoequals\n";
    let c = Config::load(Some(text), &e);
    assert_eq!(c.lang, "en");
    assert_eq!(c.model, "large-v3");
    assert_eq!(c.beam, 8);
    assert_eq!(c.mic, "MacBook");
    assert!(!c.to_traditional);
    assert_eq!(c.outdir, "/tmp/out");
}

#[test]
fn later_line_wins_and_bad_beam_is_ignored() {
    let e = env_home("/h");
    let c = Config::load(Some("beam=3\nbeam=x\nmodel=a\nmodel=b"), &e);
    assert_eq!(c.beam, 3);
    assert_eq!(c.model, "b");
    let c = Config::load(Some("beam=-2\nbeam=99999999999"), &e);
    assert_eq!(c.beam, -2);
    let c = Config::load(Some("beam=+7"), &e);
    assert_eq!(c.beam, 7);
}

#[test]
fn to_traditional_accepts_true_in_any_case() {
    let e = env_home("/h");
    assert!(Config::load(Some("to_traditional=TRUE"), &e).to_traditional);
    assert!(Config::load(Some("to_traditional=True"), &e).to_traditional);
    assert!(Config::load(Some("to_traditional=1"), &e).to_traditional);
    assert!(!Config::load(Some("to_traditional=yes"), &e).to_traditional);
    assert!(!Config::load(Some("to_traditional=2"), &e).to_traditional);
}

#[test]
fn outdir_tilde_expands_to_home() {
    let e = env_home("/Users/amy");
    assert_eq!(
        Config::load(Some("outdir=~/notes"), &e).outdir,
        "/Users/amy/notes"
    );
    assert_eq!(Config::load(Some("outdir=~/"), &e).outdir, "/Users/amy/");
    assert_eq!(Config::load(Some("outdir=~notes"), &e).outdir, "~notes");
    let no_home = EnvVars {
        home: None,
        tw_home: None,
        xdg_config_home: None,
        path: None,
    };
    assert_eq!(Config::load(Some("outdir=~/t"), &no_home).outdir, "./t");
}

#[test]
fn set_model_replaces_every_model_line() {
    let out = Config::set_model("lang=zh\n  model=turbo   # fast\nbeam=5\nmodel=x\n", "large-v3");
    assert_eq!(out, "lang=zh\nmodel=large-v3\nbeam=5\nmodel=large-v3\n");
}

#[test]
fn set_model_appends_when_absent() {
    assert_eq!(Config::set_model("lang=zh", "turbo"), "lang=zh\nmodel=turbo\n");
    assert_eq!(Config::set_model("", "turbo"), "model=turbo\n");
    assert_eq!(Config::set_model("a\r\nb\r\n", "m"), "a\nb\nmodel=m\n");
}

#[test]
fn set_model_then_load_gives_the_model() {
    let e = env_home("/h");
    let text = "# settings\nlang=ja\nmodel=turbo\nbeam=3\n";
    let written = Config::set_model(text, "large-v3");
    let c = Config::load(Some(written.as_str()), &e);
    assert_eq!(c.model, "large-v3");
    assert_eq!(c.lang, "ja");
    assert_eq!(c.beam, 3);
}

#[test]
fn flags_override_the_file() {
    let e = env_home("/h");
    let mut c = Config::load(Some("lang=ja\nbeam=3\nmic=USB"), &e);
    c.apply_overrides(Some("en".to_string()), None, Some("BlackHole".to_string()));
    assert_eq!(c.lang, "en");
    assert_eq!(c.beam, 3);
    assert_eq!(c.mic, "BlackHole");
    c.apply_overrides(None, Some(1), None);
    assert_eq!(c.beam, 1);
    assert_eq!(c.lang, "en");
}

#[test]
fn template_text_is_exact() {
    assert_eq!(
        Config::default_text(),
        "# T-Whisper 設定（CLI 旗標可覆蓋這裡）\nlang=zh            # 轉錄語言（zh / en / ja …）\nmodel=turbo        # 預設模型：turbo（快）或 large-v3（準）\nbeam=5             # beam search 寬度，越大越準越慢\nmic=default        # 麥克風名稱關鍵字（default=系統預設輸入）\nto_traditional=1   # 1=輸出簡轉繁（台灣用語），0=不轉\noutdir=~/whisper-transcripts\n"
    );
}

#[test]
fn set_model_twice_is_set_model_once() {
    let template = Config::default_text();
    let once = Config::set_model(&template, "large-v3");
    let twice = Config::set_model(&once, "large-v3");
    assert_eq!(once, twice);
    let e = env_home("/h");
    let c = Config::load(Some(once.as_str()), &e);
    assert_eq!(c.model, "large-v3");
    assert_eq!(c.lang, "zh");
    assert_eq!(c.outdir, "/h/whisper-transcripts");
    // a model value with a comment mark or spaces is also written the same way twice
    let odd = Config::set_model("lang=zh\n", " a # b ");
    assert_eq!(Config::set_model(&odd, " a # b "), odd);
    // a last line ending in a carriage return is normalised by the second run
    let a = Config::set_model("a\r", "m");
    assert_eq!(a, "a\r\nmodel=m\n");
    assert_eq!(Config::set_model(&a, "m"), "a\nmodel=m\n");
}
