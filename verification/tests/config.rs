use doneyet::cli::{candidate_paths_with, effective_path_with, home_default_path, Config};
use std::path::PathBuf;

#[test]
fn effective_path_prefers_doneyet_config() {
    let path = effective_path_with(
        || Some("/tmp/custom.toml".to_string()),
        || Some("/home/me".to_string()),
    )
    .expect("env path wins");
    assert_eq!(PathBuf::from(path), PathBuf::from("/tmp/custom.toml"));
}

#[test]
fn effective_path_falls_back_to_home_default() {
    let path = effective_path_with(|| None, || Some("/home/me".to_string())).expect("home default");
    assert_eq!(
        PathBuf::from(path),
        PathBuf::from("/home/me/.config/doneyet/config.toml")
    );
}

#[test]
fn effective_path_errors_without_env_or_home() {
    let error = effective_path_with(|| None, || None).expect_err("must error");
    assert!(error.message().contains("DONEYET_CONFIG"), "{error:?}");
}

#[test]
fn candidate_paths_list_env_then_home() {
    assert_eq!(
        candidate_paths_with(|| Some("/etc/d.toml".to_string()), || Some("/home/me/".to_string())),
        vec![
            "/etc/d.toml".to_string(),
            "/home/me/.config/doneyet/config.toml".to_string()
        ]
    );
    assert_eq!(candidate_paths_with(|| None, || None), Vec::<String>::new());
    assert_eq!(home_default_path(""), ".config/doneyet/config.toml");
}

#[test]
fn config_values_yield_to_flags() {
    let config = Config {
        interval: Some(7),
        theme: Some("ascii".to_string()),
        notify: Some(true),
        api_base: Some("https://example.test/api".to_string()),
    };
    assert_eq!(config.api_base_or(None), "https://example.test/api");
    assert_eq!(config.api_base_or(Some("https://x".to_string())), "https://x");
    assert_eq!(config.theme_or(None), "ascii");
    assert_eq!(config.interval_or(None, 3), 7);
    assert_eq!(config.interval_or(Some(1), 3), 1);
    assert!(config.notify_or(false));
    let empty = Config::default();
    assert_eq!(empty.api_base_or(None), "https://api.github.com");
    assert_eq!(empty.theme_or(None), "default");
    assert_eq!(empty.interval_or(None, 3), 3);
    assert!(!empty.notify_or(false));
    assert!(empty.notify_or(true));
}
