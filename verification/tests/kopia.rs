use clserver::envfile::{env_value, parse_env_line, parse_env_text};
use clserver::remote_backup::kopia::{
    add_kopia_password, kopia_password_file, kopia_restore_snapshot, kopia_snapshot_source,
    parse_latest_kopia_snapshot_summary, path_without_root, KopiaRemoteBackupProvider,
};
use clserver::remote_backup::{RemoteBackupContext, RemoteBackupProvider, RemoteSnapshotSummary};

#[test]
fn builds_world_snapshot_source() {
    assert_eq!(kopia_snapshot_source("abc123", "/srv/servers/survival/world"), "abc123/world");
}

#[test]
fn builds_all_snapshot_source() {
    assert_eq!(kopia_snapshot_source("abc123", "/srv/servers/survival"), "abc123");
}

#[test]
fn parses_kopia_env_lines() {
    let path = "kopia.env";

    assert_eq!(
        parse_env_line(path, 1, "KOPIA_PASSWORD='secret'"),
        Ok(Some(("KOPIA_PASSWORD".to_string(), "secret".to_string())))
    );
    assert_eq!(parse_env_line(path, 2, "# comment"), Ok(None));
}

#[test]
fn resolves_kopia_password_file() {
    let mut entries = parse_env_text("kopia.env", "KOPIA_PASSWORD_FILE='/run/kopia.pwd'\n")
        .expect("env text should parse");
    assert_eq!(kopia_password_file(&entries).as_deref(), Some("/run/kopia.pwd"));
    add_kopia_password(&mut entries, "from-file\n");

    assert_eq!(env_value(&entries, "KOPIA_PASSWORD").as_deref(), Some("from-file"));
}

#[test]
fn explicit_kopia_password_takes_precedence_over_password_file() {
    let entries = parse_env_text(
        "kopia.env",
        "KOPIA_PASSWORD='explicit'\nKOPIA_PASSWORD_FILE='/run/kopia.pwd'\n",
    )
    .expect("env text should parse");

    assert_eq!(kopia_password_file(&entries), None);
    assert_eq!(env_value(&entries, "KOPIA_PASSWORD").as_deref(), Some("explicit"));
}

#[test]
fn strips_root_and_dot_parts_from_restore_paths() {
    assert_eq!(path_without_root("/srv/servers/survival/world"), "srv/servers/survival/world");
    assert_eq!(path_without_root("/srv/./servers/../x"), "srv/servers/x");
}

#[test]
fn picks_latest_snapshot_for_restore() {
    let latest = RemoteSnapshotSummary { short_id: Some("k1234567".to_string()), time: None };
    assert_eq!(kopia_restore_snapshot("latest", Some(&latest)).as_deref(), Some("k1234567"));
    assert_eq!(kopia_restore_snapshot("latest", None), None);
    assert_eq!(kopia_restore_snapshot("abc", None).as_deref(), Some("abc"));
}

#[test]
fn kopia_provider_builds_commands() {
    let provider = KopiaRemoteBackupProvider::new(None);
    assert_eq!(provider.name(), "kopia");
    let context = RemoteBackupContext {
        server_id: "s1".to_string(),
        server_name: "survival".to_string(),
        server_dir: "/srv/servers/survival".to_string(),
    };
    assert_eq!(
        provider.backup_args(&context),
        vec![
            "snapshot", "create", "/srv/servers/survival", "--tags", "clserver:true", "--tags",
            "server-id:s1", "--tags", "server-name:survival"
        ]
    );
    assert_eq!(provider.cleanup_args(true), vec!["maintenance", "run", "--full", "--dry-run"]);
    assert_eq!(
        provider.snapshots_args("s1", 3),
        vec!["snapshot", "list", "--tags", "server-id:s1", "--max-results", "3"]
    );
}

#[test]
fn parses_empty_kopia_listing() {
    assert!(parse_latest_kopia_snapshot_summary("").is_none());
}
