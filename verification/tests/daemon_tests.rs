use jarvis::config::{Config, TelegramConfig};
use jarvis::daemon::{
    has_supervised_channels, heartbeat_tasks, parse_pid, pid_file_path, snapshot_stale,
    state_file_path,
};
use jarvis::supervisor::{
    supervise_step, Backoff, HealthRegistry, HealthStatus, RunOutcome,
};

fn test_config(dir: &str) -> Config {
    Config {
        workspace_dir: format!("{dir}/workspace"),
        config_path: format!("{dir}/config.toml"),
        ..Config::default()
    }
}

#[test]
fn state_file_path_uses_config_directory() {
    let config = test_config("/tmp/jarvis-test");

    let path = state_file_path(&config);
    assert_eq!(path, "/tmp/jarvis-test/daemon_state.json");
}

#[test]
fn pid_file_path_uses_config_directory() {
    let config = test_config("/tmp/jarvis-test");

    let path = pid_file_path(&config);
    assert_eq!(path, "/tmp/jarvis-test/daemon.pid");
}

#[test]
fn pid_file_path_without_directory_falls_back() {
    let config = Config { config_path: "config.toml".into(), ..Config::default() };
    assert_eq!(pid_file_path(&config), "./daemon.pid");
}

#[test]
fn detects_no_supervised_channels() {
    let config = Config::default();
    assert!(!has_supervised_channels(&config));
}

#[test]
fn detects_supervised_channels_present() {
    let mut config = Config::default();
    config.channels_config.telegram = Some(TelegramConfig {
        bot_token: "token".into(),
        allowed_users: vec![],
    });
    assert!(has_supervised_channels(&config));
}

#[test]
fn supervisor_marks_error_and_restart_on_failure() {
    let mut registry = HealthRegistry::new();
    let mut backoff = Backoff::new(1, 8);

    let sleep1 = supervise_step(
        &mut registry,
        &mut backoff,
        "daemon-test-fail",
        RunOutcome::Failed("boom".into()),
    );
    assert_eq!(sleep1, 1);

    let entry = registry
        .entries_ref()
        .iter()
        .find(|e| e.name == "daemon-test-fail")
        .unwrap();
    assert_eq!(entry.status, HealthStatus::Failing);
    assert!(entry.restart_count >= 1);
    assert!(entry.last_error.as_deref().unwrap_or("").contains("boom"));

    // Continuous failures double the sleep, capped.
    let sleeps: Vec<u64> = (0..5)
        .map(|_| {
            supervise_step(
                &mut registry,
                &mut backoff,
                "daemon-test-fail",
                RunOutcome::Failed("boom".into()),
            )
        })
        .collect();
    assert_eq!(sleeps, vec![2, 4, 8, 8, 8]);
}

#[test]
fn supervisor_marks_unexpected_exit_as_error() {
    let mut registry = HealthRegistry::new();
    let mut backoff = Backoff::new(1, 8);

    let sleep = supervise_step(&mut registry, &mut backoff, "daemon-test-exit", RunOutcome::CleanExit);
    assert_eq!(sleep, 1);

    let entry = registry
        .entries_ref()
        .iter()
        .find(|e| e.name == "daemon-test-exit")
        .unwrap();
    assert_eq!(entry.status, HealthStatus::Failing);
    assert!(entry.restart_count >= 1);
    assert!(entry
        .last_error
        .as_deref()
        .unwrap_or("")
        .contains("component exited unexpectedly"));
}

#[test]
fn clean_exit_resets_the_backoff() {
    let mut registry = HealthRegistry::new();
    let mut backoff = Backoff::new(2, 60);

    assert_eq!(
        supervise_step(&mut registry, &mut backoff, "c", RunOutcome::Failed("x".into())),
        2
    );
    assert_eq!(
        supervise_step(&mut registry, &mut backoff, "c", RunOutcome::Failed("x".into())),
        4
    );
    // A clean run resets to the initial back-off.
    assert_eq!(supervise_step(&mut registry, &mut backoff, "c", RunOutcome::CleanExit), 2);
}

#[test]
fn backoff_clamps_its_bounds() {
    let b = Backoff::new(0, 0);
    assert_eq!(b.initial_secs, 1);
    assert_eq!(b.max_secs, 1);

    let b2 = Backoff::new(10, 3);
    assert_eq!(b2.initial_secs, 10);
    assert_eq!(b2.max_secs, 10);
}

#[test]
fn parse_pid_reads_trimmed_decimal() {
    assert_eq!(parse_pid(" 12345\n"), Some(12345));
    assert_eq!(parse_pid("0"), Some(0));
    assert_eq!(parse_pid(""), None);
    assert_eq!(parse_pid("   "), None);
    assert_eq!(parse_pid("12a4"), None);
    assert_eq!(parse_pid("99999999999999999999"), None);
}

#[test]
fn heartbeat_tasks_skips_blank_and_comment_lines() {
    let text = "# tasks\n\ncheck the mail\n  \n# skip me\n  water the plants  \n";
    let tasks = heartbeat_tasks(text);
    assert_eq!(tasks, vec!["check the mail".to_string(), "water the plants".to_string()]);

    assert!(heartbeat_tasks("").is_empty());
    assert!(heartbeat_tasks("# only comments\n#more").is_empty());
}

#[test]
fn snapshot_staleness_thresholds() {
    assert!(!snapshot_stale(30, 30));
    assert!(snapshot_stale(31, 30));
    assert!(snapshot_stale(121, 120));
    assert!(!snapshot_stale(299, 300));
}
