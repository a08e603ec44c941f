use t_whisper::env::{
    brew_candidates, brew_prefix, command_candidates, config_dir, config_path, data_dir,
    default_outdir, has_cmd, home, legacy_models_dir, models_dir, threads, EnvVars, FileProbe,
};
use t_whisper::models::{
    declined, diarize_dir, diarize_models_present, download_complete, ensure_plan, entry, list,
    path, path_candidates, picker_choice, picker_needed, remove_plan, resolve, size_mb, url,
    EnsurePlan, ModelError, PickerChoice, RemovePlan,
};
use t_whisper::ui::Level;

fn env_home(home: &str) -> EnvVars {
    EnvVars {
        home: Some(home.to_string()),
        tw_home: None,
        xdg_config_home: None,
        path: None,
    }
}

fn probe(files: &[&str]) -> FileProbe {
    FileProbe {
        files: files.iter().map(|s| s.to_string()).collect(),
    }
}

#[test]
fn directories_from_home() {
    let e = env_home("/Users/amy");
    assert_eq!(home(&e), "/Users/amy");
    assert_eq!(data_dir(&e), "/Users/amy/.local/share/t-whisper");
    assert_eq!(models_dir(&e), "/Users/amy/.local/share/t-whisper/models");
    assert_eq!(legacy_models_dir(&e), "/Users/amy/models/whisper");
    assert_eq!(config_dir(&e), "/Users/amy/.config/t-whisper");
    assert_eq!(config_path(&e), "/Users/amy/.config/t-whisper/config");
    assert_eq!(default_outdir(&e), "/Users/amy/whisper-transcripts");
}

#[test]
fn directories_from_overrides() {
    let e = EnvVars {
        home: None,
        tw_home: Some("/data/tw".to_string()),
        xdg_config_home: Some("/cfg/".to_string()),
        path: None,
    };
    assert_eq!(home(&e), ".");
    assert_eq!(data_dir(&e), "/data/tw");
    assert_eq!(models_dir(&e), "/data/tw/models");
    assert_eq!(legacy_models_dir(&e), "./models/whisper");
    assert_eq!(config_dir(&e), "/cfg/t-whisper");
    assert_eq!(config_path(&e), "/cfg/t-whisper/config");
}

#[test]
fn command_lookup_on_path() {
    let mut e = env_home("/h");
    e.path = Some("/usr/bin::/opt/homebrew/bin".to_string());
    let c = command_candidates(&e, "opencc");
    assert_eq!(c, vec!["/usr/bin/opencc", "opencc", "/opt/homebrew/bin/opencc"]);
    assert!(has_cmd(&e, "opencc", &probe(&["/opt/homebrew/bin/opencc"])));
    assert!(!has_cmd(&e, "opencc", &probe(&["/usr/local/bin/opencc"])));
    e.path = None;
    assert!(command_candidates(&e, "opencc").is_empty());
    assert!(!has_cmd(&e, "opencc", &probe(&["opencc"])));
}

#[test]
fn homebrew_prefix() {
    assert_eq!(brew_candidates(), vec!["/opt/homebrew/bin/brew", "/usr/local/bin/brew"]);
    assert_eq!(
        brew_prefix(Some(" /opt/homebrew\n".to_string()), &probe(&[])),
        Some("/opt/homebrew".to_string())
    );
    assert_eq!(
        brew_prefix(Some("  \n".to_string()), &probe(&["/usr/local/bin/brew"])),
        Some("/usr/local".to_string())
    );
    assert_eq!(
        brew_prefix(None, &probe(&["/opt/homebrew/bin/brew", "/usr/local/bin/brew"])),
        Some("/opt/homebrew".to_string())
    );
    assert_eq!(brew_prefix(None, &probe(&[])), None);
}

#[test]
fn thread_count() {
    assert_eq!(threads(Some(10), None), 8);
    assert_eq!(threads(Some(2), None), 2);
    assert_eq!(threads(None, None), 4);
    assert_eq!(threads(Some(12), Some("6\n".to_string())), 6);
    assert_eq!(threads(Some(3), Some("0".to_string())), 3);
    assert_eq!(threads(Some(3), Some("x".to_string())), 3);
    assert_eq!(threads(Some(3), Some("16".to_string())), 8);
    assert_eq!(threads(Some(0), None), 1);
}

#[test]
fn registry() {
    let t = entry("turbo").unwrap();
    assert_eq!(t.file, "ggml-large-v3-turbo.bin");
    assert_eq!(t.size, 1_624_555_275);
    let l = entry("large-v3").unwrap();
    assert_eq!(l.file, "ggml-large-v3.bin");
    assert_eq!(l.size, 3_095_033_483);
    assert!(entry("tiny").is_none());
    assert_eq!(
        url("ggml-large-v3.bin"),
        "https://huggingface.co/ggerganov/whisper.cpp/resolve/main/ggml-large-v3.bin"
    );
    assert_eq!(size_mb(1_624_555_275), 1549);
    assert_eq!(size_mb(3_095_033_483), 2951);
}

#[test]
fn model_paths_prefer_managed_directory() {
    let e = env_home("/h");
    let managed = "/h/.local/share/t-whisper/models/ggml-large-v3-turbo.bin";
    let legacy = "/h/models/whisper/ggml-large-v3-turbo.bin";
    assert_eq!(path_candidates("turbo", &e), vec![managed, legacy]);
    assert!(path_candidates("tiny", &e).is_empty());
    assert_eq!(path("turbo", &e, &probe(&[legacy, managed])), Some(managed.to_string()));
    assert_eq!(path("turbo", &e, &probe(&[legacy])), Some(legacy.to_string()));
    assert_eq!(path("turbo", &e, &probe(&[])), None);
    assert_eq!(path("tiny", &e, &probe(&["tiny"])), None);
}

#[test]
fn resolve_prefers_an_existing_file() {
    let e = env_home("/h");
    assert_eq!(
        resolve("/m/my.bin", &e, &probe(&["/m/my.bin"])),
        Some("/m/my.bin".to_string())
    );
    let legacy = "/h/models/whisper/ggml-large-v3.bin";
    assert_eq!(resolve("large-v3", &e, &probe(&[legacy])), Some(legacy.to_string()));
    assert_eq!(resolve("large-v3", &e, &probe(&[])), None);
    assert_eq!(resolve("/m/missing.bin", &e, &probe(&[])), None);
}

#[test]
fn ensure_plans() {
    let e = env_home("/h");
    match ensure_plan("turbo", &e, &probe(&[])) {
        Ok(EnsurePlan::Download { dest, url, size }) => {
            assert_eq!(dest, "/h/.local/share/t-whisper/models/ggml-large-v3-turbo.bin");
            assert_eq!(
                url,
                "https://huggingface.co/ggerganov/whisper.cpp/resolve/main/ggml-large-v3-turbo.bin"
            );
            assert_eq!(size, 1_624_555_275);
        }
        _ => panic!("expected a download"),
    }
    let legacy = "/h/models/whisper/ggml-large-v3-turbo.bin";
    match ensure_plan("turbo", &e, &probe(&[legacy])) {
        Ok(EnsurePlan::Present(p)) => assert_eq!(p, legacy),
        _ => panic!("expected present"),
    }
    assert!(matches!(ensure_plan("tiny", &e, &probe(&[])), Err(ModelError::Unknown)));
}

#[test]
fn download_size_check() {
    assert!(download_complete(1000, 990));
    assert!(!download_complete(1000, 989));
    assert!(download_complete(1000, 5000));
    assert!(download_complete(0, 0));
    assert!(!download_complete(1_624_555_275, 0));
}

#[test]
fn answers() {
    assert!(declined("n"));
    assert!(declined(" N \n"));
    assert!(!declined(""));
    assert!(!declined("no"));
    assert!(!declined("y"));
    assert_eq!(picker_choice(""), PickerChoice::Turbo);
    assert_eq!(picker_choice("1\n"), PickerChoice::Turbo);
    assert_eq!(picker_choice(" 2"), PickerChoice::LargeV3);
    assert_eq!(picker_choice("3"), PickerChoice::Both);
    assert_eq!(picker_choice("4"), PickerChoice::Later);
    assert_eq!(picker_choice("12"), PickerChoice::Later);
}

#[test]
fn listing() {
    let e = env_home("/h");
    let managed = "/h/.local/share/t-whisper/models/ggml-large-v3-turbo.bin";
    let l = list(&e, &probe(&[managed]));
    assert_eq!(l.len(), 3);
    assert_eq!(l[0].level, Level::Info);
    assert_eq!(l[0].text, "模型狀態（存放：/h/.local/share/t-whisper/models）：");
    assert_eq!(l[1].level, Level::Success);
    assert_eq!(l[1].text, format!("turbo     {managed}"));
    assert_eq!(l[2].level, Level::Dim);
    assert_eq!(l[2].text, "⬜ large-v3  未下載（約 2951 MB）");
    assert!(!picker_needed(&e, &probe(&[managed])));
    assert!(picker_needed(&e, &probe(&[])));
}

#[test]
fn removal_plans() {
    let e = env_home("/h");
    let managed = "/h/.local/share/t-whisper/models/ggml-large-v3.bin";
    let legacy = "/h/models/whisper/ggml-large-v3.bin";
    match remove_plan("large-v3", &e, &probe(&[managed, legacy])) {
        Ok(RemovePlan::DeleteManaged(p)) => assert_eq!(p, managed),
        _ => panic!("expected delete"),
    }
    match remove_plan("large-v3", &e, &probe(&[legacy])) {
        Ok(RemovePlan::InLegacy(d)) => assert_eq!(d, "/h/models/whisper"),
        _ => panic!("expected legacy"),
    }
    assert!(matches!(
        remove_plan("large-v3", &e, &probe(&[])),
        Ok(RemovePlan::NotDownloaded)
    ));
    assert!(matches!(remove_plan("base", &e, &probe(&[])), Err(ModelError::Unknown)));
}

#[test]
fn diarization_models() {
    let e = env_home("/h");
    assert_eq!(diarize_dir(&e), "/h/.local/share/t-whisper/models/diarize");
    let seg = "/h/.local/share/t-whisper/models/diarize/segmentation.onnx";
    let emb = "/h/.local/share/t-whisper/models/diarize/embedding.onnx";
    assert!(diarize_models_present(&e, &probe(&[seg, emb])));
    assert!(!diarize_models_present(&e, &probe(&[seg])));
    let (s, m) = t_whisper::diarize::model_paths(&e);
    assert_eq!(s, seg);
    assert_eq!(m, emb);
}
