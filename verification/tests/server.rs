use clserver::cli::{Action, BackupTarget, Request, StopType};
use clserver::config::{Config, GlobalConfig, ServerConfig, ServerType};
use clserver::server::{
    maintenance_server_for_config, manager_for_server, MaintenanceServer, backup_cycle, build_maintenance_tasks, cycle_action, cycle_announcement, step_after, StepNext, cycle_begin, cycle_step, dispatch_request,
    failure_report, format_list_row, list_column_width, list_row, list_servers, maintenance_end,
    process_maintenance_task, restart_outcome, restore_cycle, sorted_server_ids, velocity_cycle,
    BackupKind, CycleAction, CycleEvent, CycleLabel, CyclePhase, CycleWork, DispatchError,
    MaintenanceEnd, MaintenanceTask, Route, Selection, ServerOperation, StopMethod,
};

#[test]
fn list_column_width_uses_longest_value_or_header() {
    assert_eq!(list_column_width("ID", &vec!["CLS4".to_string(), "proxy".to_string()]), 5);
    assert_eq!(list_column_width("SERVER", &vec!["one".to_string(), "two".to_string()]), 6);
}

#[test]
fn formats_list_rows_with_dynamic_widths() {
    let row = format_list_row(
        "very-long-id",
        "CatLordSurvival",
        "minecraft",
        "running",
        "very-long-id".len(),
        "CatLordSurvival".len(),
        "minecraft".len(),
    );

    assert_eq!(row, "very-long-id  CatLordSurvival  minecraft  running");
}

fn server(name: &str, server_type: ServerType) -> ServerConfig {
    ServerConfig {
        name: name.to_string(),
        server_type,
        java_bin: None,
        java_version: None,
        java_params: None,
        jar_file: Some("server.jar".to_string()),
        start_command: None,
        stop_command: None,
        rcon_port: Some(25575),
        rcon_password: Some("secret".to_string()),
        enabled: None,
        backup: None,
        restore: None,
    }
}

fn fleet() -> Config {
    let mut config = Config::default();
    config.global = GlobalConfig { server_dir: "/srv".to_string(), log_dir: "/log".to_string() };
    let mut survival = server("survival", ServerType::Minecraft);
    survival.backup = Some(true);
    survival.enabled = Some(true);
    let mut proxy = server("velocity", ServerType::Velocity);
    proxy.enabled = Some(true);
    let hytale = server("hytale", ServerType::Hytale);
    let mut creative = server("creative", ServerType::Minecraft);
    creative.backup = Some(true);
    config.servers = vec![
        ("survival".to_string(), survival),
        ("proxy".to_string(), proxy),
        ("hytale".to_string(), hytale),
        ("creative".to_string(), creative),
    ];
    config
}

fn request(action: Action, server: Option<&str>) -> Request {
    Request { action, server: server.map(|s| s.to_string()), verbose: false }
}

#[test]
fn routes_fleet_and_server_requests() {
    let config = fleet();
    assert!(matches!(dispatch_request(&request(Action::List, None), &config), Ok(Route::List)));
    assert!(matches!(
        dispatch_request(&request(Action::BackupRemote { target: BackupTarget::All }, None), &config),
        Ok(Route::BackupAll { kind: BackupKind::Remote })
    ));
    let error = dispatch_request(&request(Action::Start, None), &config).err().expect("needs a name");
    assert_eq!(error, DispatchError::MissingServerName);
    assert_eq!(error.message(), "This action requires a server name.");
    let error = dispatch_request(&request(Action::Start, Some("nope")), &config).err().expect("unknown");
    assert_eq!(error.message(), "Server 'nope' not found in configuration file.");
    match dispatch_request(&request(Action::Stop { stop_type: StopType::Friendly }, Some("survival")), &config) {
        Ok(Route::Server { server_id, server_type, reconcile_rcon, operation }) => {
            assert_eq!(server_id, "survival");
            assert_eq!(server_type, ServerType::Minecraft);
            assert!(reconcile_rcon);
            assert_eq!(operation, ServerOperation::StopMinecraft { stop_type: StopType::Friendly });
        },
        _ => panic!("expected a server route"),
    }
    match dispatch_request(&request(Action::Stop { stop_type: StopType::Friendly }, Some("hytale")), &config) {
        Ok(Route::Server { reconcile_rcon, operation, .. }) => {
            assert!(!reconcile_rcon);
            assert_eq!(operation, ServerOperation::StopWithStopCommand { unsupported_stop_type: true });
        },
        _ => panic!("expected a server route"),
    }
    match dispatch_request(&request(Action::Status, Some("survival")), &config) {
        Ok(Route::Server { reconcile_rcon, operation, .. }) => {
            assert!(!reconcile_rcon);
            assert_eq!(operation, ServerOperation::Status);
        },
        _ => panic!("expected a server route"),
    }
}

#[test]
fn combines_restart_failures_with_outcome() {
    assert_eq!(restart_outcome(CycleLabel::Backup, Ok(()), Ok(())), Ok(()));
    assert_eq!(
        restart_outcome(CycleLabel::Backup, Ok(()), Err("boom".to_string())),
        Err("Backup completed, but failed to restart server: boom".to_string())
    );
    assert_eq!(
        restart_outcome(CycleLabel::Restore, Err("rsync".to_string()), Err("boom".to_string())),
        Err("Restore failed, and server restart also failed: boom: rsync".to_string())
    );
    assert_eq!(
        restart_outcome(CycleLabel::VelocityBackup, Err("x".to_string()), Ok(())),
        Err("x".to_string())
    );
}

#[test]
fn runs_backup_cycle_of_running_server() {
    let plan = backup_cycle("survival", ServerType::Minecraft, BackupKind::Remote);
    let mut phase = cycle_begin(&plan);
    let mut actions = Vec::new();
    loop {
        let action = cycle_action(&plan, &phase);
        actions.push(action);
        let event = match action {
            CycleAction::Finish => break,
            CycleAction::CheckRunning => CycleEvent::Running { running: true },
            CycleAction::WaitUntilStopped { .. } => CycleEvent::Stopped { stopped: true },
            CycleAction::Start => CycleEvent::Failed { error: "no screen".to_string() },
            _ => CycleEvent::Succeeded,
        };
        phase = cycle_step(&plan, phase, event);
    }
    assert_eq!(
        actions,
        vec![
            CycleAction::ValidateRemoteEnv,
            CycleAction::CheckRunning,
            CycleAction::Stop { method: StopMethod::FriendlyRcon },
            CycleAction::WaitUntilStopped { timeout_secs: 900, poll_interval_secs: 5 },
            CycleAction::Run { work: CycleWork::RemoteBackup },
            CycleAction::Start,
            CycleAction::Finish
        ]
    );
    match phase {
        CyclePhase::Done { result } => assert_eq!(
            result,
            Err("Backup completed, but failed to restart server: no screen".to_string())
        ),
        _ => panic!("cycle should be done"),
    }
}

#[test]
fn stopped_server_is_not_started_after_restore() {
    let plan = restore_cycle("hytale", ServerType::Hytale, false);
    assert_eq!(plan.stop_method, StopMethod::StopCommand);
    let phase = cycle_begin(&plan);
    assert_eq!(cycle_action(&plan, &phase), CycleAction::CheckRunning);
    let phase = cycle_step(&plan, phase, CycleEvent::Running { running: false });
    assert_eq!(cycle_action(&plan, &phase), CycleAction::Run { work: CycleWork::Restore { dry_run: false } });
    let phase = cycle_step(&plan, phase, CycleEvent::Failed { error: "rsync".to_string() });
    assert!(matches!(phase, CyclePhase::Done { result: Err(ref e) } if e == "rsync"));
}

#[test]
fn times_out_when_server_does_not_stop() {
    let plan = backup_cycle("survival", ServerType::Minecraft, BackupKind::Local);
    let phase = cycle_begin(&plan);
    let phase = cycle_step(&plan, phase, CycleEvent::Running { running: true });
    let phase = cycle_step(&plan, phase, CycleEvent::Succeeded);
    let phase = cycle_step(&plan, phase, CycleEvent::Stopped { stopped: false });
    assert!(matches!(
        phase,
        CyclePhase::Done { result: Err(ref e) } if e == "Timed out waiting for server 'survival' to stop"
    ));
}

#[test]
fn velocity_cycle_starts_enabled_proxy() {
    let config = fleet();
    let plan = velocity_cycle("velocity", &config.servers[1].1);
    assert!(plan.start_anyway);
    assert!(plan.work.is_empty());
    let phase = cycle_step(&plan, cycle_begin(&plan), CycleEvent::Running { running: false });
    assert_eq!(cycle_action(&plan, &phase), CycleAction::Start);
    let phase = cycle_step(&plan, phase, CycleEvent::Succeeded);
    assert!(matches!(phase, CyclePhase::Done { result: Ok(()) }));
}

#[test]
fn velocity_cycle_announces_stop_and_start() {
    let config = fleet();
    let plan = velocity_cycle("velocity", &config.servers[1].1);
    let stop = CycleAction::Stop { method: StopMethod::StopCommand };
    assert_eq!(cycle_announcement(&plan, &stop, "proxy").as_deref(), Some("Stopping Velocity server proxy"));
    assert_eq!(cycle_announcement(&plan, &CycleAction::Start, "proxy").as_deref(), Some("Starting Velocity server proxy"));
    assert_eq!(cycle_announcement(&plan, &CycleAction::CheckRunning, "proxy"), None);
    let backup = backup_cycle("survival", ServerType::Minecraft, BackupKind::Local);
    assert_eq!(cycle_announcement(&backup, &CycleAction::Start, "survival"), None);
}

#[test]
fn builds_maintenance_tasks_in_id_order() {
    let config = fleet();
    let ids = sorted_server_ids(&config, Selection::Backends);
    assert_eq!(ids, vec!["creative", "hytale", "survival"]);
    let tasks = build_maintenance_tasks(&config, &ids, &vec![false, false, true]);
    assert_eq!(
        tasks,
        vec![
            MaintenanceTask {
                server_id: "creative".to_string(),
                was_running: false,
                should_start: false,
                should_backup: true
            },
            MaintenanceTask {
                server_id: "survival".to_string(),
                was_running: true,
                should_start: true,
                should_backup: true
            },
        ]
    );
    assert_eq!(
        process_maintenance_task(&tasks[1], ServerType::Minecraft),
        vec![
            CycleAction::ValidateRemoteEnv,
            CycleAction::Stop { method: StopMethod::FriendlyRcon },
            CycleAction::WaitUntilStopped { timeout_secs: 900, poll_interval_secs: 5 },
            CycleAction::Run { work: CycleWork::LocalBackup },
            CycleAction::Run { work: CycleWork::RemoteBackup },
            CycleAction::Start
        ]
    );
    assert_eq!(sorted_server_ids(&config, Selection::BackupEnabled), vec!["creative", "survival"]);
    assert_eq!(sorted_server_ids(&config, Selection::Velocity), vec!["proxy"]);
}

#[test]
fn reports_failures_and_monday_cleanup() {
    let config = fleet();
    let failures = vec![
        ("a".to_string(), "x".to_string()),
        ("b".to_string(), "y".to_string()),
    ];
    assert_eq!(failure_report("Backup failed", &failures), Err("Backup failed:\n- a: x\n- b: y".to_string()));
    assert_eq!(failure_report("Backup failed", &vec![]), Ok(()));
    assert!(matches!(
        maintenance_end(&config, &failures, true),
        MaintenanceEnd::Failed { ref error } if error == "Daily maintenance failed:\n- a: x\n- b: y"
    ));
    assert!(matches!(maintenance_end(&config, &vec![], true), MaintenanceEnd::CleanupThenFinish));
    assert!(matches!(maintenance_end(&config, &vec![], false), MaintenanceEnd::Finished));
}

#[test]
fn lists_servers_with_aligned_columns() {
    let config = fleet();
    let rows = vec![
        list_row("creative", &config.servers[3].1, false),
        list_row("proxy", &config.servers[1].1, true),
    ];
    let lines = list_servers(&rows);
    assert_eq!(lines[0], "ID        SERVER    TYPE       STATUS");
    assert_eq!(lines[1], "creative  creative  minecraft  stopped");
    assert_eq!(lines[2], "proxy     velocity  velocity   running");
}

#[test]
fn dry_run_restore_leaves_running_server_alone() {
    let plan = restore_cycle("survival", ServerType::Minecraft, true);
    let phase = cycle_begin(&plan);
    assert_eq!(cycle_action(&plan, &phase), CycleAction::Run { work: CycleWork::Restore { dry_run: true } });
    let phase = cycle_step(&plan, phase, CycleEvent::Succeeded);
    assert!(matches!(phase, CyclePhase::Done { result: Ok(()) }));
}

#[test]
fn named_backup_ignores_backup_setting() {
    let config = fleet();
    match dispatch_request(&request(Action::BackupLocal { target: BackupTarget::Server }, Some("hytale")), &config) {
        Ok(Route::Server { operation, .. }) => {
            assert_eq!(operation, ServerOperation::Backup { kind: BackupKind::Local })
        }
        _ => panic!("expected a server route"),
    }
}

#[test]
fn skips_idle_backends_in_maintenance() {
    let config = fleet();
    let ids = vec!["hytale".to_string(), "proxy".to_string()];
    assert!(build_maintenance_tasks(&config, &ids, &vec![false, true]).is_empty());
    let tasks = build_maintenance_tasks(&config, &ids, &vec![true, true]);
    assert_eq!(tasks.len(), 1);
    assert_eq!(tasks[0].server_id, "hytale");
    assert!(!tasks[0].should_start);
}

#[test]
fn sets_up_servers_by_id() {
    let mut config = fleet();
    config.java_environments = vec![("default".to_string(), "/usr/bin/java".to_string())];
    let m = manager_for_server(&config, "hytale").ok().expect("configured");
    assert_eq!(m.server_dir, "/srv/hytale");
    let error = manager_for_server(&config, "nope").err().expect("unknown");
    assert_eq!(error.message(), "Server 'nope' not found in configuration file.");
    match maintenance_server_for_config(&config, "survival") {
        Ok(MaintenanceServer::Minecraft(s)) => assert_eq!(s.rcon_port, 25575),
        _ => panic!("expected a Minecraft server"),
    }
    let server = maintenance_server_for_config(&config, "proxy").ok().expect("configured");
    assert_eq!(server.server_id(), "proxy");
    assert_eq!(server.server_name(), "velocity");
    config.java_environments.clear();
    let error = manager_for_server(&config, "hytale").err().expect("no java");
    assert_eq!(
        error.message(),
        "Failed to initialize server manager for 'hytale': Unknown javaVersion 'default' for server 'hytale'. Valid options: "
    );
}

#[test]
fn steps_stop_at_the_first_failure() {
    assert!(matches!(step_after(3, 0, Ok(())), StepNext::Run { index: 0 }));
    assert!(matches!(step_after(3, 2, Ok(())), StepNext::Run { index: 2 }));
    assert!(matches!(step_after(3, 3, Ok(())), StepNext::Done { result: Ok(()) }));
    assert!(matches!(step_after(0, 0, Ok(())), StepNext::Done { result: Ok(()) }));
    match step_after(3, 1, Err("stop failed".to_string())) {
        StepNext::Done { result: Err(e) } => assert_eq!(e, "stop failed"),
        _ => panic!("a failure ends the steps"),
    }
}
