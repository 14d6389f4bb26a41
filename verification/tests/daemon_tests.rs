use autogit::config::{Config, DaemonConfig, Repository};
use autogit::daemon::{
    handle_status_command, handle_trigger_command, ipc_step, trigger_plan, DaemonCore,
    DaemonEvent, IpcStep, TrayChange,
};
use autogit::protocol::{ResponseData, ResponseStatus};
use autogit::sync::SyncOutcome;
use autogit::tray::TrayAction;

fn create_test_config() -> Config {
    Config {
        daemon: DaemonConfig { check_interval_seconds: 1, enable_tray: false },
        repositories: vec![],
    }
}

fn create_test_config_with_repos() -> Config {
    Config {
        daemon: DaemonConfig { check_interval_seconds: 120, enable_tray: false },
        repositories: vec![
            Repository {
                path: "/test/repo1".to_string(),
                auto_commit: true,
                commit_message_template: "Auto: {timestamp}".to_string(),
            },
            Repository {
                path: "/test/repo2".to_string(),
                auto_commit: false,
                commit_message_template: "Update".to_string(),
            },
            Repository {
                path: "/test/repo3".to_string(),
                auto_commit: true,
                commit_message_template: "Checkpoint".to_string(),
            },
        ],
    }
}

fn failed_outcome(path: &str) -> SyncOutcome {
    SyncOutcome {
        path: path.to_string(),
        committed: false,
        error: Some("Not a git repository".to_string()),
    }
}

#[test]
fn test_config_reload_updates_interval() {
    let mut config = create_test_config();
    config.daemon.check_interval_seconds = 60;
    let (mut core, _init) = DaemonCore::new(config);

    assert_eq!(core.config.daemon.check_interval_seconds, 60);

    let mut new_config = create_test_config();
    new_config.daemon.check_interval_seconds = 120;
    let directive = core.handle_event(DaemonEvent::Reload(Some(new_config)));

    assert_eq!(core.config.daemon.check_interval_seconds, 120);
    assert_eq!(directive.rearm_interval, Some(120));
}

#[test]
fn test_config_reload_adds_repositories() {
    let (mut core, _init) = DaemonCore::new(create_test_config());
    assert_eq!(core.config.repositories.len(), 0);

    let mut new_config = create_test_config();
    new_config.repositories.push(Repository {
        path: "/test/repo1".to_string(),
        auto_commit: true,
        commit_message_template: "Test: {timestamp}".to_string(),
    });
    new_config.repositories.push(Repository {
        path: "/test/repo2".to_string(),
        auto_commit: false,
        commit_message_template: "Test2".to_string(),
    });
    let directive = core.handle_event(DaemonEvent::Reload(Some(new_config)));

    assert_eq!(core.config.repositories.len(), 2);
    assert_eq!(core.config.repositories[0].path, "/test/repo1");
    assert_eq!(core.config.repositories[1].path, "/test/repo2");
    // Only the enabled new repository is initialized
    assert_eq!(directive.init_repos.len(), 1);
    assert_eq!(directive.init_repos[0].path, "/test/repo1");
}

#[test]
fn test_config_reload_handles_invalid_config() {
    let mut config = create_test_config();
    config.daemon.check_interval_seconds = 60;
    let (mut core, _init) = DaemonCore::new(config);

    // The file held invalid content, so no configuration arrives
    let directive = core.handle_event(DaemonEvent::Reload(None));

    assert_eq!(core.config.daemon.check_interval_seconds, 60);
    assert_eq!(directive.init_repos.len(), 0);
    assert!(directive.rearm_interval.is_none());
}

#[test]
fn test_config_reload_only_initializes_new_repos() {
    let mut initial_config = create_test_config();
    initial_config.repositories.push(Repository {
        path: "/test/existing".to_string(),
        auto_commit: true,
        commit_message_template: "Existing".to_string(),
    });
    let (mut core, _init) = DaemonCore::new(initial_config);

    let mut new_config = create_test_config();
    new_config.repositories.push(Repository {
        path: "/test/existing".to_string(),
        auto_commit: true,
        commit_message_template: "Existing".to_string(),
    });
    new_config.repositories.push(Repository {
        path: "/test/new".to_string(),
        auto_commit: true,
        commit_message_template: "New".to_string(),
    });
    let directive = core.handle_event(DaemonEvent::Reload(Some(new_config)));

    assert_eq!(core.config.repositories.len(), 2);
    assert_eq!(core.config.repositories[0].path, "/test/existing");
    assert_eq!(core.config.repositories[1].path, "/test/new");
    // The pre-existing repository is not initialized again
    assert_eq!(directive.init_repos.len(), 1);
    assert_eq!(directive.init_repos[0].path, "/test/new");
}

#[test]
fn test_daemon_respects_short_check_interval() {
    let mut config = create_test_config();
    config.daemon.check_interval_seconds = 1;
    let (mut core, _init) = DaemonCore::new(config);

    let directive = core.handle_event(DaemonEvent::Tick);

    assert!(!core.shutting_down);
    assert!(!directive.quit);
}

#[test]
fn test_config_reload_skips_disabled_repos() {
    let (mut core, _init) = DaemonCore::new(create_test_config());

    let mut new_config = create_test_config();
    new_config.repositories.push(Repository {
        path: "/test/disabled".to_string(),
        auto_commit: false,
        commit_message_template: "Disabled".to_string(),
    });
    let directive = core.handle_event(DaemonEvent::Reload(Some(new_config)));

    assert_eq!(core.config.repositories.len(), 1);
    assert_eq!(core.config.repositories[0].auto_commit, false);
    // The disabled repository is never initialized
    assert_eq!(directive.init_repos.len(), 0);
}

#[test]
fn test_tray_action_trigger_sync() {
    let (mut core, _init) = DaemonCore::new(create_test_config());

    let directive = core.handle_event(DaemonEvent::Tray(TrayAction::TriggerSync));

    assert!(!core.shutting_down);
    assert!(!directive.quit);
}

#[test]
fn test_tray_action_toggle_suspend() {
    let (mut core, _init) = DaemonCore::new(create_test_config());

    assert!(!core.suspended);

    core.handle_event(DaemonEvent::Tray(TrayAction::ToggleSuspend));

    assert!(core.suspended);
}

#[test]
fn test_tray_action_quit() {
    let (mut core, _init) = DaemonCore::new(create_test_config());

    core.handle_event(DaemonEvent::Tray(TrayAction::Quit));

    assert!(core.shutting_down);
}

#[test]
fn test_trigger_sync_when_suspended() {
    let core_config = create_test_config_with_repos();
    let mut core = DaemonCore { config: core_config, suspended: true, shutting_down: false };

    let directive = core.handle_event(DaemonEvent::Tray(TrayAction::TriggerSync));

    assert!(!core.shutting_down);
    assert_eq!(directive.sync_repos.len(), 0);
    assert!(!directive.announce_syncing);
}

#[test]
fn test_interval_tick_when_suspended() {
    let mut config = create_test_config_with_repos();
    config.daemon.check_interval_seconds = 1;
    let mut core = DaemonCore { config, suspended: true, shutting_down: false };

    let first = core.handle_event(DaemonEvent::Tick);
    let second = core.handle_event(DaemonEvent::Tick);

    assert!(!core.shutting_down);
    assert_eq!(first.sync_repos.len(), 0);
    assert_eq!(second.sync_repos.len(), 0);
}

#[test]
fn test_tray_enable_disable_via_config_reload() {
    let mut config = create_test_config();
    config.daemon.enable_tray = false;
    let (mut core, _init) = DaemonCore::new(config);

    let mut enabling = create_test_config();
    enabling.daemon.enable_tray = true;
    let directive = core.handle_event(DaemonEvent::Reload(Some(enabling)));
    assert_eq!(directive.tray_change, TrayChange::Start);

    let mut disabling = create_test_config();
    disabling.daemon.enable_tray = false;
    let directive = core.handle_event(DaemonEvent::Reload(Some(disabling)));
    assert_eq!(directive.tray_change, TrayChange::Stop);
}

#[test]
fn test_toggle_suspend_blocks_pending_tick() {
    let (mut core, _init) = DaemonCore::new(create_test_config_with_repos());

    // While running, a tick would sync the two enabled repositories
    let before = core.handle_event(DaemonEvent::Tick);
    assert_eq!(before.sync_repos.len(), 2);

    // Suspension toggled while another tick is pending: that tick's sync
    // no longer runs
    core.handle_event(DaemonEvent::Tray(TrayAction::ToggleSuspend));
    let pending_tick = core.handle_event(DaemonEvent::Tick);
    assert_eq!(pending_tick.sync_repos.len(), 0);

    // A manual trigger while suspended is a no-op with a well-formed answer
    let plan = trigger_plan(&core.config, core.suspended);
    assert_eq!(plan.len(), 0);
    let response = handle_trigger_command(&vec![]);
    assert_eq!(response.status, ResponseStatus::Okay);
    assert_eq!(response.message, "Checked 0 repositories, committed changes in 0");
}

#[test]
fn test_startup_reconciliation_skips_disabled() {
    let (_core, init) = DaemonCore::new(create_test_config_with_repos());

    assert_eq!(init.len(), 2);
    assert_eq!(init[0].path, "/test/repo1");
    assert_eq!(init[1].path, "/test/repo3");
    assert!(init.iter().all(|r| r.auto_commit));
}

#[test]
fn test_handle_status_command_empty_config() {
    let config = create_test_config_interval(300);

    let response = handle_status_command(&config, 0);

    assert_eq!(response.status, ResponseStatus::Okay);
    assert_eq!(response.message, "Daemon status");

    if let Some(ResponseData::Status { uptime_seconds, check_interval_seconds, repositories_count }) =
        response.data
    {
        assert_eq!(uptime_seconds, 0);
        assert_eq!(check_interval_seconds, 300);
        assert_eq!(repositories_count, 0);
    } else {
        panic!("Expected Status response data");
    }
}

fn create_test_config_interval(seconds: u64) -> Config {
    Config {
        daemon: DaemonConfig { check_interval_seconds: seconds, enable_tray: true },
        repositories: vec![],
    }
}

#[test]
fn test_handle_status_command_with_repos() {
    let config = create_test_config_with_repos();

    let response = handle_status_command(&config, 0);

    assert_eq!(response.status, ResponseStatus::Okay);

    if let Some(ResponseData::Status { uptime_seconds, check_interval_seconds, repositories_count }) =
        response.data
    {
        let _ = uptime_seconds;
        assert_eq!(check_interval_seconds, 120);
        assert_eq!(repositories_count, 3);
    } else {
        panic!("Expected Status response data");
    }
}

#[test]
fn test_handle_status_command_uptime() {
    let config = create_test_config_interval(300);

    let response = handle_status_command(&config, 5);

    if let Some(ResponseData::Status { uptime_seconds, .. }) = response.data {
        assert!(uptime_seconds >= 5);
        assert!(uptime_seconds < 10);
    } else {
        panic!("Expected Status response data");
    }
}

#[test]
fn test_handle_trigger_command_empty_config() {
    let config = create_test_config_interval(300);

    let plan = trigger_plan(&config, false);
    assert_eq!(plan.len(), 0);
    let response = handle_trigger_command(&vec![]);

    assert_eq!(response.status, ResponseStatus::Okay);
    assert!(response.message.contains("0 repositories"));

    if let Some(ResponseData::Trigger { repos_checked, repos_committed, details }) = response.data {
        assert_eq!(repos_checked, 0);
        assert_eq!(repos_committed, 0);
        assert_eq!(details.len(), 0);
    } else {
        panic!("Expected Trigger response data");
    }
}

#[test]
fn test_handle_trigger_command_skips_disabled_repos() {
    let config = create_test_config_with_repos();

    // The repositories do not exist, so each checked one fails; the point
    // is that only the enabled ones are processed at all
    let plan = trigger_plan(&config, false);
    let outcomes: Vec<SyncOutcome> = plan.iter().map(|r| failed_outcome(&r.path)).collect();
    let response = handle_trigger_command(&outcomes);

    assert_eq!(response.status, ResponseStatus::Okay);

    if let Some(ResponseData::Trigger { repos_checked, details, .. }) = response.data {
        assert_eq!(repos_checked, 2);
        assert_eq!(details.len(), 2);

        assert_eq!(details[0].path, "/test/repo1");
        assert_eq!(details[1].path, "/test/repo3");
    } else {
        panic!("Expected Trigger response data");
    }
}

#[test]
fn test_handle_trigger_command_response_format() {
    let config = create_test_config_with_repos();

    let plan = trigger_plan(&config, false);
    let outcomes: Vec<SyncOutcome> = plan.iter().map(|r| failed_outcome(&r.path)).collect();
    let response = handle_trigger_command(&outcomes);

    assert_eq!(response.status, ResponseStatus::Okay);
    assert!(response.message.contains("Checked"));
    assert!(response.message.contains("repositories"));
    assert!(response.data.is_some());
}

#[test]
fn test_handle_trigger_different_repo_counts() {
    // 0 repositories
    let config0 = create_test_config_interval(300);
    assert_eq!(trigger_plan(&config0, false).len(), 0);

    // 2 enabled repositories out of 3
    let config2 = create_test_config_with_repos();
    assert_eq!(trigger_plan(&config2, false).len(), 2);

    // All 3 enabled
    let mut config_all = create_test_config_with_repos();
    config_all.repositories[1].auto_commit = true;
    assert_eq!(trigger_plan(&config_all, false).len(), 3);
}

#[test]
fn test_handle_status_different_intervals() {
    let intervals = vec![1, 60, 120, 300, 600, 3600];

    for interval in intervals {
        let config = create_test_config_interval(interval);

        let response = handle_status_command(&config, 0);

        if let Some(ResponseData::Status { check_interval_seconds, .. }) = response.data {
            assert_eq!(check_interval_seconds, interval);
        } else {
            panic!("Expected Status response data");
        }
    }
}

#[test]
fn test_response_messages() {
    let config = create_test_config_interval(300);
    let response = handle_status_command(&config, 0);
    assert_eq!(response.message, "Daemon status");

    let response = handle_trigger_command(&vec![]);
    assert!(response.message.starts_with("Checked"));
    assert!(response.message.contains("repositories"));
    assert!(response.message.contains("committed changes in"));
}

#[test]
fn test_ipc_step_empty_line_is_noop() {
    let config = create_test_config_interval(300);
    let step = ipc_step("", &config, 0);
    assert!(matches!(step, IpcStep::Ignore));
}

#[test]
fn test_ipc_step_bad_request_gets_error_response() {
    let config = create_test_config_interval(300);
    match ipc_step("not json\n", &config, 0) {
        IpcStep::Reply(resp) => assert_eq!(resp.status, ResponseStatus::Error),
        _ => panic!("Expected an error reply"),
    }
}

#[test]
fn test_ipc_step_ping() {
    let config = create_test_config_interval(300);
    match ipc_step("{\"command\":\"ping\"}\n", &config, 0) {
        IpcStep::Reply(resp) => {
            assert_eq!(resp.status, ResponseStatus::Okay);
            assert_eq!(resp.message, "pong");
        }
        _ => panic!("Expected a pong reply"),
    }
}

#[test]
fn test_ipc_step_status() {
    let config = create_test_config_interval(600);
    match ipc_step("{\"command\":\"status\"}\n", &config, 42) {
        IpcStep::Reply(resp) => {
            assert_eq!(resp.status, ResponseStatus::Okay);
            match resp.data {
                Some(ResponseData::Status { uptime_seconds, check_interval_seconds, .. }) => {
                    assert_eq!(uptime_seconds, 42);
                    assert_eq!(check_interval_seconds, 600);
                }
                _ => panic!("Expected Status response data"),
            }
        }
        _ => panic!("Expected a status reply"),
    }
}

#[test]
fn test_ipc_step_trigger_runs_cycle() {
    let config = create_test_config_with_repos();
    let step = ipc_step("{\"command\":\"trigger\"}\n", &config, 0);
    assert!(matches!(step, IpcStep::RunTrigger));
}

#[test]
fn test_status_and_trigger_scenario() {
    // Two configured repositories, one of them disabled
    let config = Config {
        daemon: DaemonConfig { check_interval_seconds: 300, enable_tray: true },
        repositories: vec![
            Repository {
                path: "/r1".to_string(),
                auto_commit: true,
                commit_message_template: "A: {timestamp}".to_string(),
            },
            Repository {
                path: "/r2".to_string(),
                auto_commit: false,
                commit_message_template: "Auto-commit: {timestamp}".to_string(),
            },
        ],
    };

    // Status counts both repositories
    let status = handle_status_command(&config, 0);
    match status.data {
        Some(ResponseData::Status { repositories_count, .. }) => {
            assert_eq!(repositories_count, 2);
        }
        _ => panic!("Expected Status response data"),
    }

    // A trigger checks only the enabled one
    let plan = trigger_plan(&config, false);
    assert_eq!(plan.len(), 1);
    assert_eq!(plan[0].path, "/r1");

    let outcomes =
        vec![SyncOutcome { path: "/r1".to_string(), committed: true, error: None }];
    let response = handle_trigger_command(&outcomes);
    match response.data {
        Some(ResponseData::Trigger { repos_checked, details, .. }) => {
            assert_eq!(repos_checked, 1);
            assert_eq!(details.len(), 1);
        }
        _ => panic!("Expected Trigger response data"),
    }
}
