use clserver::envfile::{parse_env_line, parse_env_text, parse_env_value};
use clserver::remote_backup::restic::{
    is_restic_snapshot_id, parse_latest_restic_snapshot_summary, parse_restic_size_parts,
    restic_added_to_repository_candidates, validate_restic_environment, ResticEnvError,
    ResticRemoteBackupProvider,
};
use clserver::remote_backup::{remote_backup_provider, RemoteBackupProvider, RemoteProvider};
use clserver::config::{BackupConfig, RemoteBackupProviderConfig};

#[test]
fn parses_latest_restic_snapshot_summary_from_formatted_output() {
    let output = "
repository 12345678 opened (version 2)
ID        Time                 Host        Tags        Paths
------------------------------------------------------------------------
abcd1234  2026-06-10 03:04:05  host        clserver    /srv/servers/survival
------------------------------------------------------------------------
1 snapshots
";

    let summary = parse_latest_restic_snapshot_summary(output).expect("snapshot should parse");

    assert_eq!(summary.short_id.as_deref(), Some("abcd1234"));
    assert_eq!(summary.time.as_deref(), Some("2026-06-10 03:04:05"));
}

#[test]
fn returns_none_when_formatted_restic_output_has_no_snapshots() {
    let output = "
repository 12345678 opened (version 2)
ID        Time                 Host        Tags        Paths
------------------------------------------------------------------------
0 snapshots
";

    assert!(parse_latest_restic_snapshot_summary(output).is_none());
}

#[test]
fn restic_parses_restic_env_file_lines() {
    let path = "restic.env";

    assert_eq!(
        parse_env_line(path, 1, "RESTIC_REPOSITORY='s3:s3.example.com/bucket'"),
        Ok(Some(("RESTIC_REPOSITORY".to_string(), "s3:s3.example.com/bucket".to_string())))
    );
    assert_eq!(parse_env_line(path, 2, "# comment"), Ok(None));
}

#[test]
fn restic_strips_unquoted_inline_comments_from_env_values() {
    assert_eq!(parse_env_value("secret # comment"), "secret");
    assert_eq!(parse_env_value("'secret # not comment'"), "secret # not comment");
}

#[test]
fn restic_validates_restic_environment_entries() {
    let entries = parse_env_text(
        "restic.env",
        "RESTIC_REPOSITORY='s3:s3.example.com/bucket'\nRESTIC_PASSWORD_FILE='/secure/restic.pwd'",
    )
    .expect("env text should parse");

    assert_eq!(validate_restic_environment(&entries, &Some("restic.env".to_string())), Ok(()));
}

#[test]
fn reports_missing_restic_settings() {
    let none: Vec<(String, String)> = vec![];
    let error = validate_restic_environment(&none, &None).err().expect("no repository");
    assert_eq!(error, ResticEnvError::MissingRepository { env_file: None });
    assert_eq!(
        error.message(),
        "Restic repository is not configured. Set RESTIC_REPOSITORY in the environment."
    );
    let repo_only = vec![("RESTIC_REPOSITORY".to_string(), "r".to_string())];
    let error = validate_restic_environment(&repo_only, &Some("/e.env".to_string()))
        .err()
        .expect("no password");
    assert_eq!(
        error.message(),
        "Restic password is not configured. Set RESTIC_PASSWORD, RESTIC_PASSWORD_FILE, or RESTIC_PASSWORD_COMMAND in '/e.env'."
    );
}

#[test]
fn finds_added_size_candidates() {
    let output = "Added to the repository: 1,024 KiB";
    assert_eq!(restic_added_to_repository_candidates(output), vec![("1024".to_string(), 1024)]);
    assert_eq!(parse_restic_size_parts("12.5 MiB"), Some(("12.5".to_string(), 1024 * 1024)));
    assert_eq!(parse_restic_size_parts("7 B"), Some(("7".to_string(), 1)));
    assert_eq!(parse_restic_size_parts("7 XB"), None);
}

#[test]
fn recognizes_snapshot_ids() {
    assert!(is_restic_snapshot_id("abcd1234"));
    assert!(!is_restic_snapshot_id("abcd123"));
    assert!(!is_restic_snapshot_id("abcd123z"));
}

#[test]
fn chooses_restic_unless_kopia_is_configured() {
    let mut backup = BackupConfig {
        local_dir: None,
        restic_env_file: Some("/r.env".to_string()),
        provider: None,
        kopia_env_file: Some("/k.env".to_string()),
    };
    let provider = remote_backup_provider(&backup);
    assert_eq!(provider.name(), "restic");
    assert!(matches!(provider, RemoteProvider::Restic(ref p) if p.env_file.as_deref() == Some("/r.env")));
    backup.provider = Some(RemoteBackupProviderConfig::Kopia);
    let provider = remote_backup_provider(&backup);
    assert_eq!(provider.name(), "kopia");
    assert_eq!(
        ResticRemoteBackupProvider::new(None).cleanup_args(false),
        vec!["forget", "--keep-daily", "56", "--prune"]
    );
}
