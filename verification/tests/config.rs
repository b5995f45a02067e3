use clserver::config::{
    literal_string_item, prompt_accepted, parse_server_properties_rcon_password, resolve_java_bin,
    restic_environment_check_success_message, validate_config, BackupConfig, Config, GlobalConfig,
    LiteralError, RestoreMode, ServerConfig, ServerType,
};
use clserver::envfile::parse_env_text;

fn server(name: &str, server_type: ServerType) -> ServerConfig {
    ServerConfig {
        name: name.to_string(),
        server_type,
        java_bin: None,
        java_version: None,
        java_params: None,
        jar_file: Some("server.jar".to_string()),
        start_command: None,
        stop_command: None,
        rcon_port: None,
        rcon_password: None,
        enabled: None,
        backup: None,
        restore: None,
    }
}

fn minecraft(name: &str, port: u16) -> ServerConfig {
    let mut s = server(name, ServerType::Minecraft);
    s.rcon_port = Some(port);
    s.rcon_password = Some("secret".to_string());
    s
}

fn base_config(servers: Vec<(String, ServerConfig)>) -> Config {
    let mut config = Config::default();
    config.global = GlobalConfig {
        server_dir: "/srv/servers".to_string(),
        log_dir: "/var/log/clserver".to_string(),
    };
    config.java_environments = vec![("default".to_string(), "/usr/bin/java".to_string())];
    config.servers = servers;
    config
}

fn restic_entries(text: &str) -> Result<Vec<(String, String)>, String> {
    parse_env_text("restic.env", text).map_err(|e| e.message())
}

#[test]
fn validates_complete_minecraft_config() {
    let config = base_config(vec![("survival".to_string(), minecraft("survival", 25575))]);
    assert!(validate_config(&config, &Ok(vec![])).is_ok(), "config should be valid");
}

#[test]
fn validates_local_backup_dir_when_backup_is_enabled() {
    let env = restic_entries(
        "\n            RESTIC_REPOSITORY='s3:s3.example.com/bucket'\n            RESTIC_PASSWORD_FILE='/secure/restic.pwd'\n            ",
    );
    let mut survival = minecraft("survival", 25575);
    survival.backup = Some(true);
    survival.enabled = Some(true);
    let mut config = base_config(vec![("survival".to_string(), survival)]);
    config.backup = BackupConfig {
        local_dir: Some("/srv/backups".to_string()),
        restic_env_file: Some("/tmp/validates-local-backup-dir-restic.env".to_string()),
        provider: None,
        kopia_env_file: None,
    };

    assert!(validate_config(&config, &env).is_ok(), "backup config should be valid");
    assert_eq!(config.backup.local_dir.as_deref(), Some("/srv/backups"));
    assert_eq!(config.servers[0].1.enabled, Some(true));
}

#[test]
fn reports_restic_environment_check_success_when_backup_is_enabled() {
    let env = restic_entries(
        "\n            RESTIC_REPOSITORY='s3:s3.example.com/bucket'\n            RESTIC_PASSWORD_FILE='/secure/restic.pwd'\n            ",
    );
    let mut survival = minecraft("survival", 25575);
    survival.backup = Some(true);
    let mut config = base_config(vec![("survival".to_string(), survival)]);
    config.backup.local_dir = Some("/srv/backups".to_string());
    config.backup.restic_env_file = Some("/tmp/success-message-restic.env".to_string());

    assert!(validate_config(&config, &env).is_ok(), "backup config should be valid");
    let message = restic_environment_check_success_message(&config)
        .expect("backup-enabled config should report restic check success");
    assert!(message.contains("Remote backup Restic environment check valid"));
    assert!(message.contains("/tmp/success-message-restic.env"));
}

#[test]
fn skips_restic_environment_check_success_when_no_backup_is_enabled() {
    let config = base_config(vec![("survival".to_string(), minecraft("survival", 25575))]);
    assert!(validate_config(&config, &Ok(vec![])).is_ok(), "config should be valid");
    assert!(restic_environment_check_success_message(&config).is_none());
}

#[test]
fn parses_backup_config() {
    let mut config = base_config(vec![("survival".to_string(), minecraft("survival", 25575))]);
    config.backup.local_dir = Some("/srv/backups".to_string());
    config.backup.restic_env_file =
        Some("/home/blackshadow/.config/clserver/secrets/restic.env".to_string());

    assert!(validate_config(&config, &Ok(vec![])).is_ok(), "backup config should be valid");
    assert_eq!(config.backup.local_dir.as_deref(), Some("/srv/backups"));
    assert_eq!(
        config.backup.restic_env_file.as_deref(),
        Some("/home/blackshadow/.config/clserver/secrets/restic.env")
    );
}

#[test]
fn rejects_restic_env_file_missing_repository_when_backup_is_enabled() {
    let env = restic_entries("\n            RESTIC_PASSWORD_FILE='/secure/restic.pwd'\n            ");
    let mut survival = minecraft("survival", 25575);
    survival.backup = Some(true);
    let mut config = base_config(vec![("survival".to_string(), survival)]);
    config.backup.local_dir = Some("/srv/backups".to_string());
    config.backup.restic_env_file = Some("/tmp/missing-repository-restic.env".to_string());

    let error = validate_config(&config, &env).err().expect("missing restic repository should fail");
    assert!(error.message().contains("RESTIC_REPOSITORY"));
}

#[test]
fn rejects_restic_env_file_missing_password_when_backup_is_enabled() {
    let env = restic_entries("\n            RESTIC_REPOSITORY='s3:s3.example.com/bucket'\n            ");
    let mut survival = minecraft("survival", 25575);
    survival.backup = Some(true);
    let mut config = base_config(vec![("survival".to_string(), survival)]);
    config.backup.local_dir = Some("/srv/backups".to_string());
    config.backup.restic_env_file = Some("/tmp/missing-password-restic.env".to_string());

    let error = validate_config(&config, &env).err().expect("missing restic password should fail");
    assert!(error.message().contains("RESTIC_PASSWORD"));
}

#[test]
fn parses_restore_mode_and_defaults_missing_restore_to_world() {
    let mut creative = minecraft("creative", 25576);
    creative.restore = Some(RestoreMode::All);
    let config = base_config(vec![
        ("survival".to_string(), minecraft("survival", 25575)),
        ("creative".to_string(), creative),
    ]);

    assert!(validate_config(&config, &Ok(vec![])).is_ok(), "restore config should be valid");
    assert_eq!(
        clserver::config::restore_mode_or_default(config.servers[0].1.restore),
        RestoreMode::World
    );
    assert_eq!(config.servers[1].1.restore, Some(RestoreMode::All));
}

#[test]
fn rejects_missing_local_backup_dir_when_backup_is_enabled() {
    let mut survival = minecraft("survival", 25575);
    survival.backup = Some(true);
    let config = base_config(vec![("survival".to_string(), survival)]);

    let error = validate_config(&config, &Ok(vec![])).err().expect("missing localDir should be invalid");
    assert!(error.message().contains("backup.localDir is required"));
}

#[test]
fn validates_complete_velocity_config() {
    let mut velocity = server("velocity", ServerType::Velocity);
    velocity.jar_file = Some("velocity.jar".to_string());
    velocity.stop_command = Some("end".to_string());
    let config = base_config(vec![("velocity".to_string(), velocity)]);
    assert!(validate_config(&config, &Ok(vec![])).is_ok(), "config should be valid");
}

#[test]
fn rejects_missing_global_fields_and_servers() {
    let config = Config::default();

    let error = validate_config(&config, &Ok(vec![])).err().expect("config should be invalid");
    let message = error.message();

    assert!(message.contains("global.serverDir is required"));
    assert!(message.contains("global.logDir is required"));
    assert!(message.contains("at least one server must be configured"));
}

#[test]
fn rejects_missing_minecraft_rcon_config() {
    let config = base_config(vec![("survival".to_string(), server("survival", ServerType::Minecraft))]);

    let error = validate_config(&config, &Ok(vec![])).err().expect("config should be invalid");
    let message = error.message();

    assert!(message.contains("no rconPort"));
    assert!(message.contains("no rconPassword"));
}

#[test]
fn rejects_unknown_java_version() {
    let mut survival = minecraft("survival", 25575);
    survival.java_version = Some("java99".to_string());
    let config = base_config(vec![("survival".to_string(), survival)]);

    let error = validate_config(&config, &Ok(vec![])).err().expect("config should be invalid");
    assert!(error.message().contains("references unknown javaVersion 'java99'"));
}

#[test]
fn parses_rcon_password_from_server_properties() {
    let password = parse_server_properties_rcon_password(
        "\n            #Minecraft server properties\n            enable-rcon=true\n            rcon.port=25575\n            rcon.password=from-properties\n            ",
    );

    assert_eq!(password.as_deref(), Some("from-properties"));
}

#[test]
fn parses_rcon_password_with_colon_separator() {
    let password = parse_server_properties_rcon_password("rcon.password: from-properties");

    assert_eq!(password.as_deref(), Some("from-properties"));
}

#[test]
fn ignores_comments_when_parsing_rcon_password() {
    let password = parse_server_properties_rcon_password(
        "\n            # rcon.password=commented-out\n            ! rcon.password=also-commented-out\n            motd=A Minecraft Server\n            ",
    );

    assert_eq!(password, None);
}

#[test]
fn formats_rcon_password_fix_as_literal_string() {
    let item = literal_string_item(r#"abc\def$%^"#).expect("password should be representable");

    assert_eq!(item, r#"'abc\def$%^'"#);
}

#[test]
fn rejects_literal_string_format_for_password_with_single_quote() {
    let error = literal_string_item("abc'def")
        .err()
        .expect("single quotes cannot be represented in single-line literal strings");

    assert!(error.message().contains("single quote"));
}

#[test]
fn allows_server_table_key_as_shortcut_id() {
    let config = base_config(vec![("CLS4".to_string(), minecraft("CatLordSurvival", 25575))]);
    assert!(validate_config(&config, &Ok(vec![])).is_ok(), "shortcut id should be valid");
}

#[test]
fn rejects_duplicate_server_names() {
    let config = base_config(vec![
        ("CL-S".to_string(), minecraft("CatLordSurvival", 25575)),
        ("survival".to_string(), minecraft("CatLordSurvival", 25576)),
    ]);

    let error = validate_config(&config, &Ok(vec![]))
        .err()
        .expect("duplicate server names should be invalid");
    assert!(error.message().contains("both use name 'CatLordSurvival'"));
}

#[test]
fn literal_string_rejects_newlines() {
    match literal_string_item("abc\ndef") {
        Err(error @ LiteralError::NotRepresentable { .. }) => assert!(error
            .message()
            .starts_with("Password cannot be represented as a single-line TOML literal string: ")),
        other => panic!("a newline cannot stand in a literal string: {other:?}"),
    }
}

#[test]
fn resolves_java_bin_in_precedence_order() {
    let envs = vec![
        ("default".to_string(), "/usr/bin/java".to_string()),
        ("java21".to_string(), "/opt/java21/bin/java".to_string()),
    ];
    let mut s = minecraft("survival", 25575);
    assert_eq!(resolve_java_bin(&s, &envs).ok().as_deref(), Some("/usr/bin/java"));
    s.java_version = Some("java21".to_string());
    assert_eq!(resolve_java_bin(&s, &envs).ok().as_deref(), Some("/opt/java21/bin/java"));
    s.java_bin = Some("/custom/java".to_string());
    assert_eq!(resolve_java_bin(&s, &envs).ok().as_deref(), Some("/custom/java"));
    s.java_bin = None;
    s.java_version = Some("java99".to_string());
    let error = resolve_java_bin(&s, &envs).err().expect("unknown java version");
    assert_eq!(
        error.message(),
        "Unknown javaVersion 'java99' for server 'survival'. Valid options: default, java21"
    );
}

#[test]
fn reports_unreadable_restic_env_file() {
    let mut survival = minecraft("survival", 25575);
    survival.backup = Some(true);
    let mut config = base_config(vec![("survival".to_string(), survival)]);
    config.backup.local_dir = Some("/srv/backups".to_string());
    config.backup.restic_env_file = Some("/missing.env".to_string());
    let error = validate_config(&config, &Err("cannot read".to_string()))
        .err()
        .expect("unreadable env file should fail");
    assert!(error.message().starts_with("Invalid configuration:\n- "));
}

#[test]
fn finds_rcon_password_mismatches_sorted_by_name() {
    let mut config = base_config(vec![
        ("b".to_string(), minecraft("zeta", 1)),
        ("a".to_string(), minecraft("alpha", 2)),
        ("v".to_string(), server("proxy", ServerType::Velocity)),
    ]);
    config.servers[2].1.rcon_password = Some("x".to_string());
    let texts = vec![
        Some("rcon.password=other".to_string()),
        Some("rcon.password=changed\n".to_string()),
        Some("rcon.password=ignored".to_string()),
    ];
    let found = clserver::config::find_minecraft_rcon_password_mismatches(&config, &texts);
    assert_eq!(found.len(), 2);
    assert_eq!(found[0].server_name, "alpha");
    assert_eq!(found[0].server_key, "a");
    assert_eq!(found[0].properties_password, "changed");
    assert_eq!(found[0].properties_file, "/srv/servers/alpha/server.properties");
    assert_eq!(found[1].server_name, "zeta");
    let same = vec![Some("rcon.password=secret".to_string()), None, None];
    assert!(clserver::config::find_minecraft_rcon_password_mismatches(&config, &same).is_empty());
}

#[test]
fn accepts_yes_answers_only() {
    assert!(prompt_accepted("y\n"));
    assert!(prompt_accepted("  YES "));
    assert!(!prompt_accepted("no"));
    assert!(!prompt_accepted(""));
}
