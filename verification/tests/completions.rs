use doneyet::cli::{enable_instruction, install_dir_with, shell_file_name, Shell};
use std::path::PathBuf;

fn as_path(dir: Option<String>) -> Option<PathBuf> {
    dir.map(PathBuf::from)
}

#[test]
fn shell_file_names_cover_every_variant() {
    assert_eq!(shell_file_name(&Shell::Bash), "doneyet.bash");
    assert_eq!(shell_file_name(&Shell::Elvish), "doneyet.elv");
    assert_eq!(shell_file_name(&Shell::Fish), "doneyet.fish");
    assert_eq!(shell_file_name(&Shell::PowerShell), "_doneyet.ps1");
    assert_eq!(shell_file_name(&Shell::Zsh), "_doneyet");
}

#[test]
fn install_dir_prefers_the_explicit_env_var() {
    let dir = install_dir_with(|key| match key {
        "DONEYET_COMPLETIONS_DIR" => Some("/env/dir".to_string()),
        "XDG_DATA_HOME" => Some("/xdg".to_string()),
        "HOME" => Some("/home/u".to_string()),
        _ => None,
    });
    assert_eq!(as_path(dir), Some(PathBuf::from("/env/dir")));
}

#[test]
fn install_dir_falls_back_to_xdg_data_home() {
    let dir = install_dir_with(|key| match key {
        "DONEYET_COMPLETIONS_DIR" => None,
        "XDG_DATA_HOME" => Some("/xdg".to_string()),
        "HOME" => Some("/home/u".to_string()),
        _ => None,
    });
    assert_eq!(as_path(dir), Some(PathBuf::from("/xdg/doneyet/completions")));
}

#[test]
fn install_dir_falls_back_to_home() {
    let dir = install_dir_with(|key| match key {
        "DONEYET_COMPLETIONS_DIR" => None,
        "XDG_DATA_HOME" => None,
        "HOME" => Some("/home/u".to_string()),
        _ => None,
    });
    assert_eq!(
        as_path(dir),
        Some(PathBuf::from("/home/u/.local/share/doneyet/completions"))
    );
}

#[test]
fn install_dir_is_none_without_any_anchor() {
    let dir = install_dir_with(|_| None);
    assert_eq!(as_path(dir), None);
}

#[test]
fn install_dir_ignores_empty_env_values() {
    let dir = install_dir_with(|key| match key {
        "DONEYET_COMPLETIONS_DIR" => Some(String::new()),
        "XDG_DATA_HOME" => Some("/xdg".to_string()),
        "HOME" => Some("/home/u".to_string()),
        _ => None,
    });
    assert_eq!(as_path(dir), Some(PathBuf::from("/xdg/doneyet/completions")));
}

#[test]
fn install_dir_joins_onto_a_trailing_slash_once() {
    let dir = install_dir_with(|key| match key {
        "XDG_DATA_HOME" => Some("/xdg/".to_string()),
        _ => None,
    });
    assert_eq!(dir.as_deref(), Some("/xdg/doneyet/completions"));
}

#[test]
fn enable_instruction_per_shell() {
    assert_eq!(enable_instruction(&Shell::Bash, "/d/doneyet.bash"), "source /d/doneyet.bash");
    assert_eq!(enable_instruction(&Shell::Zsh, "/d/_doneyet"), "source /d/_doneyet");
    assert_eq!(enable_instruction(&Shell::Fish, "/d/doneyet.fish"), "source /d/doneyet.fish");
    assert_eq!(enable_instruction(&Shell::PowerShell, "/d/_doneyet.ps1"), ". /d/_doneyet.ps1");
    assert_eq!(enable_instruction(&Shell::Elvish, "/d/doneyet.elv"), "eval (cat /d/doneyet.elv)");
}
