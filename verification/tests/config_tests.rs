use std::collections::HashMap;
use std::path::PathBuf;

use tempfile::tempdir;
use workday_launcher::{
    default_missing_policy, looks_like_path, next_config_search, resolve_against, resolve_given,
    AppConfig,
    ConfigSearch,
};

#[test]
fn resolve_against_joins_relative_paths() {
    let dir = tempdir().unwrap();
    let base = dir.path();

    let got = resolve_against(base.to_str().unwrap(), "data/2025.json");
    assert_eq!(PathBuf::from(got), base.join("data/2025.json"));
}

#[test]
fn resolve_against_keeps_absolute_paths() {
    let dir = tempdir().unwrap();
    let base = dir.path();

    let other = tempdir().unwrap();
    let abs = other.path().join("workday-launcher-test").join("x.json");
    let abs_s = abs.to_string_lossy().to_string();

    let got = resolve_against(base.to_str().unwrap(), &abs_s);
    assert_eq!(PathBuf::from(got), abs);
}

#[test]
fn looks_like_path_detects_common_cases() {
    assert!(looks_like_path("./bin/tool"));
    assert!(looks_like_path("data/2025.json"));
    assert!(looks_like_path(r"data\2025.json"));
    assert!(!looks_like_path("echo"));
}

#[test]
fn looks_like_path_edge_cases() {
    assert!(!looks_like_path(""));
    assert!(looks_like_path("."));
    assert!(looks_like_path(".hidden"));
    assert!(!looks_like_path("python3"));
    assert!(looks_like_path("C:\\Program Files\\app.exe"));
    assert!(!looks_like_path("a.b"));
}

#[test]
fn missing_policy_defaults_to_allow() {
    assert_eq!(default_missing_policy(), "allow");
}

#[test]
fn config_paths_resolve_against_config_dir() {
    let mut cfg = AppConfig {
        command: "./bin/app".to_string(),
        args: vec!["--x".to_string()],
        workdir: Some("work".to_string()),
        env: HashMap::new(),
        holiday_json_files: vec!["2025.json".to_string()],
        missing_policy: "allow".to_string(),
        invert: false,
    };
    cfg.resolve_relative_paths("/srv/launcher");
    assert_eq!(cfg.command, "/srv/launcher/./bin/app");
    assert_eq!(cfg.workdir.as_deref(), Some("/srv/launcher/work"));
    assert_eq!(cfg.args, vec!["--x".to_string()]);

    let mut cfg2 = AppConfig {
        command: "echo".to_string(),
        args: vec![],
        workdir: None,
        env: HashMap::new(),
        holiday_json_files: vec![],
        missing_policy: "deny".to_string(),
        invert: true,
    };
    cfg2.resolve_relative_paths("/srv/launcher");
    assert_eq!(cfg2.command, "echo");
    assert_eq!(cfg2.workdir, None);
}

#[test]
fn config_search_order() {
    assert_eq!(next_config_search(ConfigSearch::Start, true), ConfigSearch::UseGiven);
    let s = next_config_search(ConfigSearch::Start, false);
    assert_eq!(s, ConfigSearch::ProbeWorkingDir);
    assert_eq!(next_config_search(s, true), ConfigSearch::UseCandidate);
    let s = next_config_search(s, false);
    assert_eq!(s, ConfigSearch::ProbeExeDir);
    assert_eq!(next_config_search(s, true), ConfigSearch::UseCandidate);
    assert_eq!(next_config_search(s, false), ConfigSearch::NotFound);
    assert_eq!(next_config_search(ConfigSearch::NotFound, true), ConfigSearch::NotFound);
}

#[test]
fn resolve_given_keeps_absolute_and_joins_relative() {
    assert_eq!(resolve_given("/srv/base", "/etc/app.toml", true), "/etc/app.toml");
    assert_eq!(
        PathBuf::from(resolve_given("/srv/base", "data/2025.json", false)),
        PathBuf::from("/srv/base").join("data/2025.json")
    );
    // An already absolute result resolves to itself.
    let first = resolve_against("/srv/base", "/opt/tool");
    assert_eq!(first, "/opt/tool");
    assert_eq!(resolve_against("/srv/base", &first), first);
}

#[test]
fn joined_paths_have_exactly_one_separator() {
    assert_eq!(resolve_against("/srv/launcher", "data/2025.json"), "/srv/launcher/data/2025.json");
    assert_eq!(resolve_against("/srv/launcher/", "data/2025.json"), "/srv/launcher/data/2025.json");
    assert_eq!(resolve_against("", "data/2025.json"), "data/2025.json");
}
