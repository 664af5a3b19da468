use suno_downloader::paths::{
    cli_config_dir, cli_session_path, clip_path, config_dir, config_dir_for, default_output_dir,
    index_path, legacy_index_path,
    legacy_config_dir, legacy_session_path, session_path, settings_path, token_server_url,
    ConfigEnv,
};
use suno_downloader::settings::{default_max_pages, default_organize, resolve_output_dir};
use suno_downloader::types::{AppSettings, OrganizeMode};

fn env(windows: bool, app_data: Option<&str>, xdg: Option<&str>, home: Option<&str>) -> ConfigEnv {
    ConfigEnv {
        windows,
        app_data: app_data.map(|s| s.to_string()),
        xdg_config_home: xdg.map(|s| s.to_string()),
        home: home.map(|s| s.to_string()),
    }
}

#[test]
fn config_folder_on_windows() {
    let e = env(true, Some("C:\\AppData"), Some("/xdg"), Some("/home/u"));
    assert_eq!(config_dir(&e), vec!["C:\\AppData", "suno-downloader"]);
    assert_eq!(session_path(&e), vec!["C:\\AppData", "suno-downloader", "session.json"]);
    assert_eq!(settings_path(&e), vec!["C:\\AppData", "suno-downloader", "settings.json"]);
}

#[test]
fn config_folder_elsewhere() {
    let e = env(false, Some("ignored"), Some("/xdg"), Some("/home/u"));
    assert_eq!(cli_config_dir(&e), vec!["/xdg", "suno-cli"]);
    let e = env(true, None, None, Some("/home/u"));
    assert_eq!(legacy_config_dir(&e), vec!["/home/u", ".config", "suno-sync-mini"]);
    assert_eq!(cli_session_path(&e), vec!["/home/u", ".config", "suno-cli", "session.json"]);
    assert_eq!(legacy_session_path(&e), vec!["/home/u", ".config", "suno-sync-mini", "session.json"]);
    let e = env(false, None, None, None);
    assert_eq!(config_dir_for(&e, "x"), vec![".", ".config", "x"]);
}

#[test]
fn fixed_addresses() {
    assert_eq!(token_server_url(), "http://127.0.0.1:38946");
    assert_eq!(default_output_dir(None), "./suno-wav");
    assert_eq!(default_output_dir(Some("/music".to_string())), "/music");
    assert_eq!(clip_path(&vec!["out".to_string(), "2024-03".to_string()], "a.wav"), vec!["out", "2024-03", "a.wav"]);
}

#[test]
fn settings_defaults() {
    let empty = AppSettings { output_dir: None, organize: None, delay: None, max_pages: None, since: None };
    assert_eq!(default_organize(&empty), OrganizeMode::Week);
    assert_eq!(default_max_pages(&empty), 0);
    let set = AppSettings {
        output_dir: Some("C:\\music".to_string()),
        organize: Some(OrganizeMode::MonthWeek),
        delay: Some(10),
        max_pages: Some(3),
        since: Some("7d".to_string()),
    };
    assert_eq!(default_organize(&set), OrganizeMode::MonthWeek);
    assert_eq!(default_max_pages(&set), 3);
    assert_eq!(resolve_output_dir(Some("x"), Some(&set), None), "x");
    assert_eq!(resolve_output_dir(None, Some(&set), None), "C:\\music");
    assert_eq!(resolve_output_dir(None, Some(&empty), Some("/env".to_string())), "/env");
    assert_eq!(resolve_output_dir(None, None, None), "./suno-wav");
}

#[test]
fn organize_default_is_flat() {
    assert_eq!(OrganizeMode::default(), OrganizeMode::Flat);
}

#[test]
fn index_files_sit_in_the_download_folder() {
    assert_eq!(
        index_path("C:\\music"),
        vec!["C:\\music".to_string(), ".suno-cli-index.json".to_string()]
    );
    assert_eq!(
        legacy_index_path("./suno-wav"),
        vec!["./suno-wav".to_string(), ".suno-sync-mini-index.json".to_string()]
    );
}
