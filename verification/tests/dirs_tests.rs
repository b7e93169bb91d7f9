use moduprompt::dirs::{
    default_db_path, fallback_dirs, resolve_dirs_from, runtime_file_path, BaseDirsInfo,
};

#[test]
fn fallback_dirs_use_moduprompt_layout() {
    let (config_dir, data_dir) = fallback_dirs("/tmp/mp_home");
    assert_eq!(config_dir, "/tmp/mp_home/.moduprompt/config");
    assert_eq!(data_dir, "/tmp/mp_home/.moduprompt/data");
}

#[test]
fn default_paths_have_expected_suffixes() {
    let dirs = resolve_dirs_from(None, "/tmp/mp_home");
    let db_path = default_db_path(&dirs);
    assert!(db_path.ends_with("state/mpd.sqlite"));

    let runtime_path = runtime_file_path(&dirs);
    assert!(runtime_path.ends_with("daemon.json"));
}

#[test]
fn platform_dirs_take_precedence() {
    let base = BaseDirsInfo {
        config_dir: "/home/u/.config".to_string(),
        data_local_dir: "/home/u/.local/share".to_string(),
        runtime_dir: Some("/run/user/1000".to_string()),
    };
    let dirs = resolve_dirs_from(Some(base), "/home/u");
    assert_eq!(dirs.config_dir, "/home/u/.config/moduprompt");
    assert_eq!(dirs.data_dir, "/home/u/.local/share/moduprompt");
    assert_eq!(dirs.runtime_dir, "/run/user/1000/moduprompt");
    assert_eq!(dirs.state_dir, "/home/u/.local/share/moduprompt/state");
}

#[test]
fn missing_runtime_dir_falls_back_to_data() {
    let base = BaseDirsInfo {
        config_dir: "/home/u/.config".to_string(),
        data_local_dir: "/home/u/.local/share".to_string(),
        runtime_dir: None,
    };
    let dirs = resolve_dirs_from(Some(base), "/home/u");
    assert_eq!(dirs.runtime_dir, "/home/u/.local/share/moduprompt/run");
}
