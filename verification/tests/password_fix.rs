use clserver::config::{Config, GlobalConfig, RconPasswordMismatch, RestoreMode, ServerConfig, ServerType};
use clserver::password_fix::{
    apply_rcon_password_fixes, begin_rcon_password_fix, finish_rcon_password_fix, fix_prompt,
    not_interactive_message, rcon_password_fix_step, reconcile_answer, reconcile_prompt,
    validate_outcome, FixError, FixProgress,
    ValidateOutcome,
};

const CONFIG_TEXT: &str = "[global]\nserverDir = \"/srv/servers\"\n\n[servers.CLS4]\nname = \"survival\"\nrconPassword = \"old\"\n\n[servers.CLS5]\nname = \"creative\"\nrconPassword = \"older\"\n";

fn mismatch(key: &str, name: &str, password: &str) -> RconPasswordMismatch {
    RconPasswordMismatch {
        server_key: key.to_string(),
        server_name: name.to_string(),
        properties_file: format!("/srv/servers/{name}/server.properties"),
        properties_password: password.to_string(),
    }
}

fn server(name: &str, backup: bool) -> ServerConfig {
    ServerConfig {
        name: name.to_string(),
        server_type: ServerType::Minecraft,
        java_bin: None,
        java_version: None,
        java_params: None,
        jar_file: Some("server.jar".to_string()),
        start_command: None,
        stop_command: None,
        rcon_port: Some(25575),
        rcon_password: Some("old".to_string()),
        enabled: None,
        backup: Some(backup),
        restore: None::<RestoreMode>,
    }
}

fn config(backup: bool) -> Config {
    let mut config = Config::default();
    config.global = GlobalConfig { server_dir: "/srv/servers".to_string(), log_dir: "/var/log/clserver".to_string() };
    config.servers = vec![("CLS4".to_string(), server("survival", backup))];
    config
}

fn lines_of(outcome: ValidateOutcome) -> Vec<String> {
    match outcome {
        ValidateOutcome::Valid { lines } => lines,
        ValidateOutcome::Mismatched { lines, .. } => lines,
        ValidateOutcome::Fix => vec![],
    }
}

#[test]
fn reports_valid_configuration_without_mismatches() {
    assert_eq!(lines_of(validate_outcome(&config(false), &vec![], false)), vec!["Configuration is valid."]);
    assert_eq!(
        lines_of(validate_outcome(&config(true), &vec![], true)),
        vec![
            "Remote backup Restic environment check valid using process environment.",
            "Configuration is valid."
        ]
    );
}

#[test]
fn reports_mismatches_without_fix_and_asks_to_fix_with_it() {
    let ms = vec![mismatch("CLS4", "survival", "new")];
    match validate_outcome(&config(false), &ms, false) {
        ValidateOutcome::Mismatched { lines, error } => {
            assert_eq!(
                lines,
                vec![
                    "Configuration is structurally valid, but RCON password mismatches were found:",
                    "- Minecraft server 'survival': clserver.toml rconPassword differs from /srv/servers/survival/server.properties",
                    "",
                    "Run `clserver validate-config --fix` to update clserver.toml from server.properties.",
                ]
            );
            assert_eq!(error, "RCON password mismatches found");
        }
        _ => panic!("mismatches should be reported"),
    }
    assert!(matches!(validate_outcome(&config(false), &ms, true), ValidateOutcome::Fix));
}

#[test]
fn formats_fix_prompts() {
    let m = mismatch("CLS4", "survival", "new");
    assert_eq!(
        fix_prompt(&m),
        "RCON password mismatch for server 'survival'. Update clserver.toml from '/srv/servers/survival/server.properties'? [y/N] "
    );
    assert_eq!(
        not_interactive_message("survival", "/srv/servers/survival/server.properties"),
        "RCON password mismatch for server 'survival', but stdin is not interactive. Update clserver.toml to match '/srv/servers/survival/server.properties'."
    );
}

#[test]
fn fixes_accepted_passwords_as_literal_strings() {
    let ms = vec![mismatch("CLS4", "survival", "abc\\def"), mismatch("CLS5", "creative", "fresh")];
    let end = apply_rcon_password_fixes("/cfg/clserver.toml", CONFIG_TEXT, &ms, &vec![true, true])
        .unwrap_or_else(|e| panic!("{}", e.message()));
    let text = end.write.expect("the text is written back");
    assert!(text.contains("rconPassword = 'abc\\def'"), "{text}");
    assert!(text.contains("rconPassword = 'fresh'"), "{text}");
    assert!(!text.contains("\"old\""));
    assert!(text.contains("name = \"survival\""));
    assert_eq!(
        end.lines,
        vec![
            "Updated rconPassword for server 'survival' from server.properties.",
            "Updated rconPassword for server 'creative' from server.properties.",
            "Updated 2 server configuration(s) in /cfg/clserver.toml.",
            "Configuration is valid.",
        ]
    );
    assert!(end.result.is_ok());
}

#[test]
fn declined_mismatches_remain() {
    let ms = vec![mismatch("CLS4", "survival", "new"), mismatch("CLS5", "creative", "fresh")];
    let end = apply_rcon_password_fixes("/cfg/clserver.toml", CONFIG_TEXT, &ms, &vec![false, true])
        .unwrap_or_else(|e| panic!("{}", e.message()));
    let text = end.write.expect("one server was fixed");
    assert!(text.contains("rconPassword = \"old\""));
    assert!(text.contains("rconPassword = 'fresh'"));
    assert_eq!(end.lines.len(), 2);
    let error = end.result.expect_err("one mismatch remains");
    assert_eq!(
        error.message(),
        "1 RCON password mismatch(es) remain. Re-run `clserver validate-config --fix` or update clserver.toml manually."
    );

    let end = apply_rcon_password_fixes("/cfg/clserver.toml", CONFIG_TEXT, &ms, &vec![false, false])
        .unwrap_or_else(|e| panic!("{}", e.message()));
    assert!(end.write.is_none());
    assert!(end.lines.is_empty());
    assert!(matches!(end.result, Err(FixError::Remaining { count: 2 })));
}

#[test]
fn stops_at_a_password_with_a_single_quote() {
    let ms = vec![mismatch("CLS4", "survival", "abc'def"), mismatch("CLS5", "creative", "fresh")];
    let error = apply_rcon_password_fixes("/cfg/clserver.toml", CONFIG_TEXT, &ms, &vec![true, true])
        .err()
        .expect("a single quote cannot be written");
    assert_eq!(
        error.message(),
        "Failed to format rconPassword for server 'survival' as a TOML literal string: Cannot write rconPassword as a single-quoted TOML literal string because it contains a single quote. Update clserver.toml manually for this server."
    );
}

#[test]
fn refuses_a_configuration_that_is_not_toml() {
    let ms = vec![mismatch("CLS4", "survival", "new")];
    let error = apply_rcon_password_fixes("/cfg/clserver.toml", "[servers\nname = ", &ms, &vec![false])
        .err()
        .expect("not a TOML document");
    assert!(error.message().starts_with("Failed to parse '/cfg/clserver.toml' for editing: "));
    assert!(error.message().len() > "Failed to parse '/cfg/clserver.toml' for editing: ".len());
    assert!(begin_rcon_password_fix("/cfg/clserver.toml", "[servers".to_string()).is_err());
}

#[test]
fn reports_a_configuration_without_a_servers_table() {
    let ms = vec![mismatch("CLS4", "survival", "new")];
    let error = apply_rcon_password_fixes("/cfg/clserver.toml", "servers = 5\n", &ms, &vec![true])
        .err()
        .expect("servers is not a table");
    assert_eq!(
        error.message(),
        "Failed to set rconPassword for server 'CLS4' in the configuration document"
    );
}

#[test]
fn steps_one_answer_at_a_time() {
    let progress = begin_rcon_password_fix("/cfg/clserver.toml", CONFIG_TEXT.to_string())
        .unwrap_or_else(|e| panic!("{}", e.message()));
    let (progress, line) = rcon_password_fix_step(progress, &mismatch("CLS4", "survival", "new"), false)
        .unwrap_or_else(|e| panic!("{}", e.message()));
    assert!(line.is_none());
    assert_eq!((progress.fixed, progress.skipped), (0, 1));
    assert_eq!(progress.text, CONFIG_TEXT);
    let (progress, line) = rcon_password_fix_step(progress, &mismatch("CLS5", "creative", "fresh"), true)
        .unwrap_or_else(|e| panic!("{}", e.message()));
    assert_eq!(line.as_deref(), Some("Updated rconPassword for server 'creative' from server.properties."));
    assert_eq!((progress.fixed, progress.skipped), (1, 1));
    let end = finish_rcon_password_fix(&progress, "/cfg/clserver.toml");
    assert_eq!(end.lines, vec!["Updated 1 server configuration(s) in /cfg/clserver.toml."]);
    let unchanged = FixProgress { text: CONFIG_TEXT.to_string(), fixed: 0, skipped: 0 };
    let end = finish_rcon_password_fix(&unchanged, "/cfg/clserver.toml");
    assert!(end.write.is_none());
    assert_eq!(end.lines, vec!["Configuration is valid."]);
    assert!(end.result.is_ok());
}

#[test]
fn reports_the_parser_message_for_an_unwritable_password() {
    let ms = vec![mismatch("CLS4", "survival", "line\nbreak")];
    let error = apply_rcon_password_fixes("/cfg/clserver.toml", CONFIG_TEXT, &ms, &vec![true])
        .err()
        .expect("a newline cannot stand in a literal string");
    let prefix = "Failed to format rconPassword for server 'survival' as a TOML literal string: Password cannot be represented as a single-line TOML literal string: ";
    assert!(error.message().starts_with(prefix), "{}", error.message());
    assert!(error.message().len() > prefix.len());
}

#[test]
fn reconciles_a_mismatch_only_when_the_answer_is_yes() {
    let m = mismatch("CLS4", "survival", "new");
    assert_eq!(
        reconcile_prompt(&m),
        "RCON password mismatch for server 'survival'. Use password from '/srv/servers/survival/server.properties' for this run? [y/N] "
    );

    let mut c = config(false);
    let error = reconcile_answer(&mut c, &m, None).expect_err("no terminal to ask");
    assert_eq!(
        error,
        "RCON password mismatch for server 'survival', but stdin is not interactive. Update clserver.toml to match '/srv/servers/survival/server.properties'."
    );
    assert_eq!(c.servers[0].1.rcon_password.as_deref(), Some("old"));

    let error = reconcile_answer(&mut c, &m, Some(false)).expect_err("declined");
    assert_eq!(
        error,
        "RCON password mismatch for server 'survival'. Update clserver.toml to match '/srv/servers/survival/server.properties' or rerun and accept the server.properties value."
    );
    assert_eq!(c.servers[0].1.rcon_password.as_deref(), Some("old"));

    let line = reconcile_answer(&mut c, &m, Some(true)).expect("accepted");
    assert_eq!(
        line,
        "Using RCON password from server.properties for server 'survival'. Please update clserver.toml to keep future runs in sync."
    );
    assert_eq!(c.servers[0].1.rcon_password.as_deref(), Some("new"));
}
