use clserver::cli::StopType;
use clserver::config::{BackupConfig, GlobalConfig, ServerConfig, ServerType};
use clserver::server::generic::GenericServer;
use clserver::server::manager::ServerStep;
use clserver::server::minecraft::{
    parse_player_count, stop_action, MinecraftError, MinecraftServer, StopAction, StopEvent, StopPhase,
};

fn config(port: Option<u16>, password: Option<&str>) -> ServerConfig {
    ServerConfig {
        name: "survival".to_string(),
        server_type: ServerType::Minecraft,
        java_bin: None,
        java_version: None,
        java_params: None,
        jar_file: Some("server.jar".to_string()),
        start_command: None,
        stop_command: None,
        rcon_port: port,
        rcon_password: password.map(|p| p.to_string()),
        enabled: None,
        backup: None,
        restore: None,
    }
}

fn global() -> GlobalConfig {
    GlobalConfig { server_dir: "/srv".to_string(), log_dir: "/log".to_string() }
}

fn backup() -> BackupConfig {
    BackupConfig { local_dir: None, restic_env_file: None, provider: None, kopia_env_file: None }
}

fn envs() -> Vec<(String, String)> {
    vec![("default".to_string(), "/usr/bin/java".to_string())]
}

fn server() -> MinecraftServer {
    MinecraftServer::new("s1".to_string(), config(Some(25575), Some("pw")), &global(), &backup(), &envs())
        .ok()
        .expect("complete config")
}

#[test]
fn requires_rcon_settings() {
    let error = MinecraftServer::new("s1".to_string(), config(None, Some("pw")), &global(), &backup(), &envs())
        .err()
        .expect("no port");
    assert!(matches!(error, MinecraftError::MissingRconPort { .. }));
    assert_eq!(error.message(), "Minecraft server 'survival' has no rconPort.");
    let error = MinecraftServer::new("s1".to_string(), config(Some(1), None), &global(), &backup(), &envs())
        .err()
        .expect("no password");
    assert_eq!(error.message(), "Minecraft server 'survival' has no rconPassword.");
    let s = server();
    assert_eq!(s.rcon_port, 25575);
    assert_eq!(s.rcon_password, "pw");
    assert_eq!(s.manager.server_dir, "/srv/survival");
}

#[test]
fn reads_player_counts() {
    assert_eq!(parse_player_count("There are 3 of a max of 20 players online: a, b, c"), Some(3));
    assert_eq!(parse_player_count("There are +0 of a max"), Some(0));
    assert_eq!(parse_player_count("no numbers here"), None);
    assert_eq!(parse_player_count("count 4294967296 then 7"), Some(7));
}

fn run_stop(s: &MinecraftServer, stop_type: StopType, list_reply: &str) -> (Vec<String>, Result<(), String>) {
    let mut log = Vec::new();
    let mut phase = s.stop_server(stop_type);
    loop {
        let event = match stop_action(phase.clone()) {
            StopAction::Finish { result } => return (log, result),
            StopAction::CheckRunning => {
                log.push("check".to_string());
                StopEvent::Running { running: true }
            },
            StopAction::Rcon { command } => {
                log.push(command.clone());
                if command == "list" {
                    StopEvent::Replied { reply: list_reply.to_string() }
                } else {
                    StopEvent::Replied { reply: String::new() }
                }
            },
            StopAction::Sleep { secs } => {
                log.push(format!("sleep {secs}"));
                StopEvent::Slept
            },
        };
        phase = s.stop_step(phase, event);
    }
}

#[test]
fn friendly_stop_warns_online_players() {
    let (log, result) = run_stop(&server(), StopType::Friendly, "There are 2 of a max of 20 players online");
    assert_eq!(
        log,
        vec![
            "check",
            "list",
            "msg @a Server is shutting down in 5 minutes",
            "sleep 240",
            "msg @a Server is shutting down in 1 minute",
            "sleep 60",
            "check",
            "stop"
        ]
    );
    assert_eq!(result, Ok(()));
}

#[test]
fn friendly_stop_without_players_stops_at_once() {
    let (log, result) = run_stop(&server(), StopType::Friendly, "There are 0 of a max of 20 players online");
    assert_eq!(log, vec!["check", "list", "check", "stop"]);
    assert_eq!(result, Ok(()));
    let (log, _) = run_stop(&server(), StopType::Immediate, "");
    assert_eq!(log, vec!["check", "stop"]);
}

#[test]
fn reports_rcon_failures_in_context() {
    let s = server();
    let phase = s.stop_step(s.stop_server(StopType::Friendly), StopEvent::Running { running: true });
    assert_eq!(phase, StopPhase::ListPlayers);
    let phase = s.stop_step(phase, StopEvent::Failed { error: "connection refused".to_string() });
    assert_eq!(
        phase,
        StopPhase::Failed {
            error: "Minecraft server 'survival' has a running screen session, but RCON is not reachable for friendly stop: connection refused"
                .to_string()
        }
    );
    let phase = s.stop_step(s.stop_server(StopType::Immediate), StopEvent::Running { running: false });
    assert_eq!(phase, StopPhase::Stopped);
}

#[test]
fn restart_stops_immediately_then_starts() {
    let s = server();
    assert_eq!(
        s.restart_server(),
        vec![
            ServerStep::StopMinecraft { stop_type: StopType::Immediate },
            ServerStep::WaitUntilStopped { timeout_secs: 900, poll_interval_secs: 5 },
            ServerStep::Start
        ]
    );
    let launch = s.start_server(false, "t").expect("jar configured").expect("not running");
    assert_eq!(launch.args[7], "/usr/bin/java  -jar server.jar");
}

#[test]
fn generic_server_resolves_its_manager() {
    let mut c = config(None, None);
    c.server_type = ServerType::Hytale;
    c.java_version = Some("java99".to_string());
    let error = GenericServer::new("h".to_string(), c, &global(), &backup(), &envs()).err().expect("unknown java");
    assert_eq!(error.java_version, "java99");
    let g = GenericServer::new("h".to_string(), config(None, None), &global(), &backup(), &envs())
        .ok()
        .expect("default java");
    assert_eq!(g.manager.java_bin, "/usr/bin/java");
}
