use clserver::duration::Duration;
use clserver::config::{BackupConfig, GlobalConfig, RestoreMode, ServerConfig, ServerType};
use clserver::envfile::{env_value, parse_env_line};
use clserver::server::manager::{
    capitalize, latest_file, latest_time, wait_step, WaitAction, format_path_with_trailing_slash, latest_remote_snapshot_args, optional_display,
    path_status, rsync_args, rsync_outcome, screen_session_exists_in_output, snapshot_status_failure,
    snapshot_summary, yes_no, ManagerError, PathKind, ScreenOp, ServerManager, ServerStep,
};

#[test]
fn finds_exact_screen_session_name() {
    let output = "
            There are screens on:
                1234.survival\t(06/10/2026 10:00:00 AM)\t(Detached)
                5678.velocity\t(06/10/2026 10:00:00 AM)\t(Detached)
            2 Sockets in /run/screen/S-user.
        ";

    assert!(screen_session_exists_in_output(output, "survival"));
    assert!(screen_session_exists_in_output(output, "velocity"));
}

#[test]
fn does_not_match_partial_screen_session_name() {
    let output = "
            There is a screen on:
                1234.survival-backup\t(06/10/2026 10:00:00 AM)\t(Detached)
            1 Socket in /run/screen/S-user.
        ";

    assert!(!screen_session_exists_in_output(output, "survival"));
}

#[test]
fn ignores_non_session_lines() {
    let output = "
            No Sockets found in /run/screen/S-user.
        ";

    assert!(!screen_session_exists_in_output(output, "survival"));
}

#[test]
fn formats_backup_source_with_trailing_slash() {
    assert_eq!(format_path_with_trailing_slash("/srv/servers/survival"), "/srv/servers/survival/");
}

#[test]
fn capitalizes_operation_name() {
    assert_eq!(capitalize("restore"), "Restore");
}

#[test]
fn manager_parses_restic_env_file_lines() {
    let path = "test.env";

    assert_eq!(
        parse_env_line(path, 1, "AWS_ACCESS_KEY_ID='abc123'"),
        Ok(Some(("AWS_ACCESS_KEY_ID".to_string(), "abc123".to_string())))
    );
    assert_eq!(
        parse_env_line(path, 2, "export RESTIC_REPOSITORY=\"s3:endpoint/bucket\""),
        Ok(Some(("RESTIC_REPOSITORY".to_string(), "s3:endpoint/bucket".to_string())))
    );
    assert_eq!(parse_env_line(path, 3, "# comment"), Ok(None));
}

#[test]
fn manager_validates_restic_environment_entries() {
    let entries = vec![
        ("RESTIC_REPOSITORY".to_string(), "s3:s3.example.com/bucket".to_string()),
        ("RESTIC_PASSWORD_FILE".to_string(), "/secure/restic.pwd".to_string()),
    ];

    assert_eq!(env_value(&entries, "RESTIC_REPOSITORY").as_deref(), Some("s3:s3.example.com/bucket"));
    assert_eq!(env_value(&entries, "RESTIC_PASSWORD_FILE").as_deref(), Some("/secure/restic.pwd"));
}

#[test]
fn manager_strips_unquoted_inline_comments_from_env_values() {
    let path = "test.env";

    assert_eq!(
        parse_env_line(path, 1, "RESTIC_PASSWORD_FILE=/secure/restic.pwd # local path"),
        Ok(Some(("RESTIC_PASSWORD_FILE".to_string(), "/secure/restic.pwd".to_string())))
    );
    assert_eq!(
        parse_env_line(path, 2, "RESTIC_PASSWORD='abc#def'"),
        Ok(Some(("RESTIC_PASSWORD".to_string(), "abc#def".to_string())))
    );
}

fn survival_config() -> ServerConfig {
    ServerConfig {
        name: "survival".to_string(),
        server_type: ServerType::Velocity,
        java_bin: None,
        java_version: None,
        java_params: Some("-Xmx2G".to_string()),
        jar_file: Some("server.jar".to_string()),
        start_command: None,
        stop_command: Some("end".to_string()),
        rcon_port: None,
        rcon_password: None,
        enabled: Some(true),
        backup: Some(true),
        restore: None,
    }
}

fn manager(local_dir: Option<&str>) -> ServerManager {
    let global = GlobalConfig { server_dir: "/srv/servers".to_string(), log_dir: "/var/log/cls".to_string() };
    let backup = BackupConfig {
        local_dir: local_dir.map(|d| d.to_string()),
        restic_env_file: Some("/etc/restic.env".to_string()),
        provider: None,
        kopia_env_file: None,
    };
    let envs = vec![("default".to_string(), "/usr/bin/java".to_string())];
    ServerManager::new("s1".to_string(), survival_config(), &global, &backup, &envs)
        .ok()
        .expect("java resolves")
}

#[test]
fn builds_start_command_and_screen_launch() {
    let m = manager(Some("/srv/backups"));
    assert_eq!(m.server_dir, "/srv/servers/survival");
    assert_eq!(m.start_command().ok().as_deref(), Some("/usr/bin/java -Xmx2G -jar server.jar"));
    let launch = m
        .start_server(false, "2026-06-10_03:04:05")
        .expect("start command")
        .expect("not running");
    assert_eq!(launch.working_dir, "/srv/servers/survival");
    assert_eq!(launch.log_dir, "/var/log/cls/servers/survival");
    assert_eq!(
        launch.args,
        vec![
            "-dmS",
            "survival",
            "-L",
            "-Logfile",
            "/var/log/cls/servers/survival/2026-06-10_03:04:05.log",
            "bash",
            "-c",
            "/usr/bin/java -Xmx2G -jar server.jar"
        ]
    );
    assert!(m.start_server(true, "t").expect("running is fine").is_none());
}

#[test]
fn reports_missing_start_and_stop_commands() {
    let mut m = manager(None);
    m.config.jar_file = None;
    m.config.stop_command = None;
    let error = m.start_command().err().expect("no way to start");
    assert_eq!(error.message(), "Server 'survival' needs either startCommand or jarFile.");
    let error = m.stop_with_stop_command(true).err().expect("no stop command");
    assert_eq!(
        error.message(),
        "Server 'survival' has no stopCommand configured. Minecraft servers should stop through RCON instead."
    );
    assert_eq!(m.stop_with_stop_command(false), Ok(None));
}

#[test]
fn sends_stop_command_to_screen_session() {
    let m = manager(None);
    let args = m.stop_with_stop_command(true).expect("stop command").expect("running");
    assert_eq!(args, vec!["-S", "survival", "-X", "stuff", "end\n"]);
    assert_eq!(m.attach_server(), vec!["-r", "survival"]);
    assert_eq!(
        m.restart_with_stop_command(),
        vec![
            ServerStep::StopWithStopCommand,
            ServerStep::WaitUntilStopped { timeout_secs: 900, poll_interval_secs: 5 },
            ServerStep::Start
        ]
    );
}

#[test]
fn reports_screen_and_timeout_failures() {
    let m = manager(None);
    assert_eq!(m.screen_outcome(ScreenOp::Start, true, Some(0)), Ok(()));
    let error = m.screen_outcome(ScreenOp::Start, false, Some(1)).err().expect("failed");
    assert_eq!(error.message(), "Error starting server 'survival'. Return code: Some(1)");
    let error = m.screen_outcome(ScreenOp::Attach, false, None).err().expect("failed");
    assert_eq!(error.message(), "Error attaching screen session 'survival'. Return code: None");
    let error = m.wait_until_stopped_or_timeout(false).err().expect("timed out");
    assert_eq!(error.message(), "Timed out waiting for server 'survival' to stop");
    assert_eq!(m.wait_until_stopped_or_timeout(true), Ok(()));
}

#[test]
fn plans_local_backup_and_restore() {
    let m = manager(Some("/srv/backups"));
    let plan = m.backup_server().ok().expect("local dir set");
    assert_eq!(plan.backup_root, "/srv/backups");
    assert_eq!(plan.rsync_args, vec!["-av", "--delete", "/srv/servers/survival/", "/srv/backups/survival"]);
    let restore = m.restore_server(true).ok().expect("local dir set");
    assert_eq!(restore.mode, RestoreMode::World);
    assert_eq!(restore.source, "/srv/backups/survival/world");
    assert_eq!(restore.destination, "/srv/servers/survival/world");
    assert!(restore.create_destination);
    assert_eq!(
        restore.rsync_args,
        vec!["-av", "--delete", "--dry-run", "/srv/backups/survival/world/", "/srv/servers/survival/world"]
    );
    let lines = m.restore_lines(&restore, true);
    assert_eq!(lines[0], "Restore dry run for server 's1'");
    assert_eq!(lines.last().map(|s| s.as_str()), Some("No files will be copied, overwritten, or deleted."));
    let lines = m.restore_lines(&restore, false);
    assert_eq!(lines[0], "Restore confirmation required");
    assert_eq!(m.restore_prompt(), "Type 'restore s1' to continue: ");
    assert_eq!(m.restore_confirmed("  restore s1 \n"), Ok(()));
    assert_eq!(m.restore_confirmed("restore s2"), Err(ManagerError::RestoreCancelled));
    let (source, destination) = m.restore_paths(RestoreMode::All).ok().expect("paths");
    assert_eq!(source, "/srv/backups/survival");
    assert_eq!(destination, "/srv/servers/survival");
}

#[test]
fn local_backup_needs_local_dir() {
    let m = manager(None);
    let error = m.backup_server().err().expect("no local dir");
    assert_eq!(
        error.message(),
        "Server 'survival' requires backup.localDir for local backup/restore operations."
    );
    let status = m.local_backup_status(true, &vec![(5, 0)]);
    assert!(status.path.is_none());
    assert!(!status.exists);
    assert!(status.latest_modified.is_none());
    let m = manager(Some("/srv/backups"));
    let status = m.local_backup_status(true, &vec![(3, 0), (5, 2), (5, 1), (4, 9)]);
    assert_eq!(status.path.as_deref(), Some("/srv/backups/survival"));
    assert!(status.exists);
    assert_eq!(status.latest_modified, Some((5, 2)));
    let status = m.local_backup_status(false, &vec![(3, 0)]);
    assert!(!status.exists);
    assert!(status.latest_modified.is_none());
}

#[test]
fn lists_status_lines() {
    let m = manager(Some("/srv/backups"));
    let lines = m.status_server(false, path_status(PathKind::Missing), &None);
    assert_eq!(lines[0], "ID: s1");
    assert_eq!(lines[2], "Type: velocity");
    assert_eq!(lines[3], "Screen session: not running");
    assert_eq!(lines[5], "Server directory status: missing");
    assert_eq!(lines[7], "Latest screen log: none found");
    assert!(lines.contains(&"Jar file: server.jar".to_string()));
    assert!(lines.contains(&"RCON port: not configured".to_string()));
    assert_eq!(lines.last().map(|s| s.as_str()), Some("Restore mode: world"));
}

#[test]
fn formats_small_texts() {
    assert_eq!(optional_display(Some(25575)), "25575");
    assert_eq!(optional_display(None), "not configured");
    assert_eq!(yes_no(true), "yes");
    assert_eq!(yes_no(false), "no");
    assert_eq!(format_path_with_trailing_slash("/a/"), "/a/");
    assert_eq!(capitalize(""), "");
}

#[test]
fn reports_rsync_and_snapshot_failures() {
    assert_eq!(rsync_args("a/", "b", false), vec!["-av", "--delete", "a/", "b"]);
    let error = rsync_outcome("backup", "survival", false, Some(23)).err().expect("failed");
    assert_eq!(error.message(), "Backup failed for server 'survival'. Return code: Some(23)");
    let error = snapshot_status_failure("s1", Some(1), "  no repo \n");
    assert_eq!(error.message(), "Restic snapshot status failed for server 's1'. Return code: Some(1): no repo");
    let error = snapshot_status_failure("s1", None, "  ");
    assert_eq!(error.message(), "Restic snapshot status failed for server 's1'. Return code: None");
    assert_eq!(
        latest_remote_snapshot_args("s1"),
        vec!["snapshots", "--latest", "1", "--tag", "clserver", "--tag", "server-id:s1", "--json"]
    );
}

#[test]
fn summarizes_snapshot_from_json_fields() {
    let s = snapshot_summary(None, Some("0123456789abcdef".to_string()), Some("t".to_string()));
    assert_eq!(s.short_id.as_deref(), Some("01234567"));
    assert_eq!(s.time.as_deref(), Some("t"));
    let s = snapshot_summary(Some("short".to_string()), Some("long-id".to_string()), None);
    assert_eq!(s.short_id.as_deref(), Some("short"));
}

#[test]
fn latest_time_is_the_newest_of_the_tree() {
    assert_eq!(latest_time(&vec![]), None);
    assert_eq!(latest_time(&vec![(7, 0)]), Some((7, 0)));
    assert_eq!(latest_time(&vec![(7, 5), (9, 1), (9, 0), (2, 999)]), Some((9, 1)));
}

#[test]
fn latest_file_skips_directories_and_prefers_the_last_of_equal_times() {
    let entry = |p: &str, file: bool, t: (u64, u32)| (p.to_string(), file, t);
    assert_eq!(latest_file(&vec![]), None);
    assert_eq!(latest_file(&vec![entry("/logs/dir", false, (99, 0))]), None);
    let entries = vec![
        entry("/logs/a.log", true, (10, 0)),
        entry("/logs/sub", false, (50, 0)),
        entry("/logs/b.log", true, (20, 5)),
        entry("/logs/c.log", true, (20, 5)),
        entry("/logs/d.log", true, (20, 4)),
    ];
    assert_eq!(latest_file(&entries).as_deref(), Some("/logs/c.log"));
}

#[test]
fn waits_until_the_session_ends_or_the_deadline() {
    let at = |secs: u64, nanos: u32| Duration::new(secs, nanos);
    assert_eq!(wait_step(at(0, 0), 900, 5, None), WaitAction::CheckRunning);
    assert_eq!(wait_step(at(899, 999_999_999), 900, 5, None), WaitAction::CheckRunning);
    assert_eq!(wait_step(at(900, 0), 900, 5, None), WaitAction::Finish { stopped: false });
    assert_eq!(wait_step(at(10, 0), 900, 5, Some(true)), WaitAction::Sleep { secs: 5 });
    assert_eq!(wait_step(at(10, 0), 900, 5, Some(false)), WaitAction::Finish { stopped: true });
}
