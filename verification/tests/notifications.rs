use clserver::config::Config;
use clserver::duration::Duration;
use clserver::envfile::parse_env_line;
use clserver::notifications::{
    discord_payload, discord_webhook_url, escape_json_string, format_duration, maintenance_message,
    send_maintenance_summary, truncate_discord_content, NotifyError,
};

#[test]
fn formats_maintenance_success_message() {
    let config = Config::default();
    let message = maintenance_message(&config, &Ok(()), Duration::from_secs(75));

    assert!(message.contains("clserver maintenance completed"));
    assert!(message.contains("Duration: 1m 15s"));
}

#[test]
fn reports_summary_skipped_when_notifications_are_disabled() {
    let config = Config::default();

    let sent = send_maintenance_summary(&config, &Ok(()), Duration::from_secs(1))
        .expect("disabled notifications are no error");

    assert!(sent.is_none());
}

#[test]
fn reports_enabled_summary_configuration_errors() {
    let mut config = Config::default();
    config.notifications.enabled = Some(true);

    let error = send_maintenance_summary(&config, &Ok(()), Duration::from_secs(1))
        .err()
        .expect("enabled notifications without a webhook env file should fail");

    assert!(error.message().contains("notifications.discord.webhookEnvFile is required"));
}

#[test]
fn parses_discord_env_lines() {
    let path = "discord.env";

    assert_eq!(
        parse_env_line(path, 1, "CLSERVER_DISCORD_WEBHOOK_URL='https://discord.com/api/webhooks/test'"),
        Ok(Some((
            "CLSERVER_DISCORD_WEBHOOK_URL".to_string(),
            "https://discord.com/api/webhooks/test".to_string()
        )))
    );
    assert_eq!(parse_env_line(path, 2, "# comment"), Ok(None));
}

#[test]
fn truncates_long_discord_content() {
    let content = "x".repeat(2100);
    let truncated = truncate_discord_content(&content);

    assert!(truncated.chars().count() <= 2000);
    assert!(truncated.contains("truncated"));
}

#[test]
fn escapes_json_message_content() {
    assert_eq!(escape_json_string("hello \"world\"\nnext"), "hello \\\"world\\\"\\nnext");
}

#[test]
fn escapes_control_characters_as_unicode() {
    assert_eq!(escape_json_string("a\u{1}b\tc\\"), "a\\u0001b\\tc\\\\");
    assert_eq!(discord_payload("hi"), "{\"content\":\"hi\"}");
}

#[test]
fn keeps_short_discord_content() {
    assert_eq!(truncate_discord_content("short"), "short");
    let exact = "y".repeat(2000);
    assert_eq!(truncate_discord_content(&exact), exact);
}

#[test]
fn formats_summary_durations() {
    assert_eq!(format_duration(Duration::from_secs(5)), "5s");
    assert_eq!(format_duration(Duration::from_secs(3725)), "1h 2m 5s");
}

#[test]
fn formats_failed_maintenance_message() {
    let config = Config::default();
    let message = maintenance_message(&config, &Err("boom".to_string()), Duration::from_secs(2));
    assert!(message.contains("clserver maintenance failed"));
    assert!(message.ends_with("Error:\nboom"));
}

#[test]
fn webhook_url_takes_last_assignment_and_rejects_blank() {
    let entries = vec![
        ("CLSERVER_DISCORD_WEBHOOK_URL".to_string(), "https://a".to_string()),
        ("CLSERVER_DISCORD_WEBHOOK_URL".to_string(), "https://b".to_string()),
    ];
    assert_eq!(discord_webhook_url(&entries, "d.env"), Ok("https://b".to_string()));
    let blank = vec![("CLSERVER_DISCORD_WEBHOOK_URL".to_string(), "  ".to_string())];
    let error = discord_webhook_url(&blank, "d.env").err().expect("blank url");
    assert_eq!(error, NotifyError::MissingWebhookUrl { env_file: "d.env".to_string() });
    assert_eq!(
        error.message(),
        "Discord webhook env file 'd.env' must define CLSERVER_DISCORD_WEBHOOK_URL"
    );
}

#[test]
fn summary_delivery_names_env_file_and_content() {
    let mut config = Config::default();
    config.notifications.enabled = Some(true);
    config.notifications.discord.webhook_env_file = Some("/etc/discord.env".to_string());
    let delivery = send_maintenance_summary(&config, &Ok(()), Duration::from_secs(1))
        .expect("configured notifications")
        .expect("summary wanted");
    assert_eq!(delivery.env_file, "/etc/discord.env");
    assert!(delivery.content.contains("clserver maintenance completed"));
    config.notifications.maintenance_summary = Some(false);
    assert!(send_maintenance_summary(&config, &Ok(()), Duration::from_secs(1))
        .expect("no error")
        .is_none());
}

#[test]
fn single_quoted_values_read_back_unchanged() {
    assert_eq!(
        parse_env_line("x.env", 1, "TOKEN='a#b \"c\" d'"),
        Ok(Some(("TOKEN".to_string(), "a#b \"c\" d".to_string())))
    );
}
