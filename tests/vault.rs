use devtoolbox::vault::{
    choose_vault_dir, is_blank, normalize_settings, resolve_in_vault, sanitize_relative_path,
    settings_file_path, vault_dir_under, VaultError, VaultSettings,
};

#[test]
fn parent_escape_is_refused() {
    assert_eq!(resolve_in_vault("/home/u/vault", "../../etc/passwd"), Err(VaultError::PathEscape));
}

#[test]
fn nested_path_resolves_under_root() {
    let r = resolve_in_vault("/home/u/vault", "snippets/git/a.txt").unwrap();
    assert_eq!(r, "/home/u/vault/snippets/git/a.txt");
    assert!(r.starts_with("/home/u/vault/"));
}

#[test]
fn absolute_root_and_drive_paths_are_refused() {
    assert_eq!(sanitize_relative_path("/etc/passwd"), Err(VaultError::PathEscape));
    assert_eq!(sanitize_relative_path("\\windows"), Err(VaultError::PathEscape));
    assert_eq!(sanitize_relative_path("C:\\x"), Err(VaultError::PathEscape));
    assert_eq!(sanitize_relative_path("a/../b"), Err(VaultError::PathEscape));
    assert_eq!(sanitize_relative_path("a/.."), Err(VaultError::PathEscape));
}

#[test]
fn dots_inside_names_are_allowed() {
    assert_eq!(sanitize_relative_path("a..b/c"), Ok("a..b/c".to_string()));
    assert_eq!(sanitize_relative_path("./x/.hidden"), Ok("./x/.hidden".to_string()));
    assert_eq!(resolve_in_vault("/v/", "x"), Ok("/v/x".to_string()));
}

#[test]
fn settings_path_and_default_dir() {
    assert_eq!(settings_file_path("/v"), "/v/settings.json");
    assert_eq!(vault_dir_under(Some("/data".to_string())), Ok("/data/DevToolBox".to_string()));
    assert_eq!(vault_dir_under(None), Err(VaultError::NoDataDir));
    assert_eq!(choose_vault_dir(Some("  ".to_string()), Some("/d".to_string())), Ok("/d/DevToolBox".to_string()));
    assert_eq!(choose_vault_dir(Some("/mine".to_string()), None), Ok("/mine".to_string()));
    assert_eq!(choose_vault_dir(None, None), Err(VaultError::NoDataDir));
}

#[test]
fn blank_vault_path_is_filled() {
    assert!(is_blank(" \t\n"));
    assert!(!is_blank(" x "));
    let s = VaultSettings {
        vault_path: "   ".to_string(),
        recent_files: vec!["a".to_string()],
        last_open_path: Some("b".to_string()),
    };
    let n = normalize_settings(s, "/v");
    assert_eq!(n.vault_path, "/v");
    assert_eq!(n.recent_files, vec!["a".to_string()]);
    assert_eq!(n.last_open_path, Some("b".to_string()));
    let kept = normalize_settings(
        VaultSettings { vault_path: "/w".to_string(), recent_files: vec![], last_open_path: None },
        "/v",
    );
    assert_eq!(kept.vault_path, "/w");
    let d = normalize_settings(VaultSettings::default(), "/v");
    assert_eq!(d.vault_path, "/v");
}
