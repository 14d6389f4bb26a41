use autogit::commands::{
    add_repository, disable_repository, enable_repository, expand_path, interval_description,
    remove_repository, repository_rows,
};
use autogit::config::{Config, DaemonConfig, Repository};

#[test]
fn test_config_defaults() {
    let config = Config::default();

    // Default daemon config: five minutes
    assert_eq!(config.daemon.check_interval_seconds, 300);

    // No repositories by default
    assert_eq!(config.repositories.len(), 0);
}

#[test]
fn test_daemon_config_defaults() {
    let daemon_config = DaemonConfig::default();
    assert_eq!(daemon_config.check_interval_seconds, 300);
}

#[test]
fn test_expand_path_absolute() {
    let path = "/tmp/test";
    let expanded = expand_path(path, "/home/user");
    assert_eq!(expanded, "/tmp/test");
}

#[test]
fn test_expand_path_tilde() {
    let expanded = expand_path("~/notes", "/home/user");
    assert_eq!(expanded, "/home/user/notes");
}

#[test]
fn test_add_repository_creates_config() {
    let mut config = Config::default();

    let added = add_repository(&mut config, "/tmp/repo".to_string(), None, None);
    assert!(added);

    assert_eq!(config.repositories.len(), 1);
    assert!(config.repositories[0].path.contains("tmp"));
    assert_eq!(config.repositories[0].auto_commit, true);
}

#[test]
fn test_add_repository_with_custom_message() {
    let mut config = Config::default();

    let added =
        add_repository(&mut config, "/tmp/repo".to_string(), Some("Custom: {date}".to_string()), None);
    assert!(added);

    assert_eq!(config.repositories[0].commit_message_template, "Custom: {date}");
}

#[test]
fn test_add_repository_with_interval() {
    let mut config = Config::default();

    let added = add_repository(&mut config, "/tmp/repo".to_string(), None, Some(60));
    assert!(added);

    assert_eq!(config.daemon.check_interval_seconds, 60);
}

#[test]
fn test_add_repository_duplicate() {
    let mut config = Config::default();

    let added1 = add_repository(&mut config, "/tmp/repo".to_string(), None, None);
    assert!(added1);

    let added2 = add_repository(&mut config, "/tmp/repo".to_string(), None, None);
    assert!(!added2);
    assert_eq!(config.repositories.len(), 1);
}

#[test]
fn test_remove_repository() {
    let mut config = Config::default();
    add_repository(&mut config, "/tmp/repo".to_string(), None, None);

    let removed = remove_repository(&mut config, "/tmp/repo");
    assert!(removed);

    assert_eq!(config.repositories.len(), 0);
}

#[test]
fn test_remove_repository_not_found() {
    let mut config = Config::default();

    let removed = remove_repository(&mut config, "/tmp/repo");
    assert!(!removed);
}

#[test]
fn test_enable_repository() {
    let mut config = Config::default();
    add_repository(&mut config, "/tmp/repo".to_string(), None, None);
    disable_repository(&mut config, "/tmp/repo");

    let found = enable_repository(&mut config, "/tmp/repo");
    assert!(found);

    assert_eq!(config.repositories[0].auto_commit, true);
}

#[test]
fn test_disable_repository() {
    let mut config = Config::default();
    add_repository(&mut config, "/tmp/repo".to_string(), None, None);

    let found = disable_repository(&mut config, "/tmp/repo");
    assert!(found);

    assert_eq!(config.repositories[0].auto_commit, false);
}

#[test]
fn test_enable_repository_not_found() {
    let mut config = Config::default();

    let found = enable_repository(&mut config, "/tmp/repo");
    assert!(!found);
}

#[test]
fn test_disable_then_enable_repository() {
    let mut config = Config::default();
    add_repository(&mut config, "/tmp/repo".to_string(), None, None);

    disable_repository(&mut config, "/tmp/repo");
    assert_eq!(config.repositories[0].auto_commit, false);

    enable_repository(&mut config, "/tmp/repo");
    assert_eq!(config.repositories[0].auto_commit, true);
}

#[test]
fn test_interval_persists_across_operations() {
    let mut config = Config::default();

    config.daemon.check_interval_seconds = 240;

    // Adding a repository without an interval leaves it alone
    add_repository(&mut config, "/tmp/repo".to_string(), None, None);

    assert_eq!(config.daemon.check_interval_seconds, 240);
}

#[test]
fn test_add_repository_updates_interval() {
    let mut config = Config::default();

    add_repository(&mut config, "/tmp/repo".to_string(), None, Some(90));

    assert_eq!(config.daemon.check_interval_seconds, 90);
}

#[test]
fn test_multiple_repositories() {
    let mut config = Config::default();

    add_repository(&mut config, "/tmp/repo1".to_string(), None, None);
    add_repository(&mut config, "/tmp/repo2".to_string(), Some("Custom".to_string()), None);

    assert_eq!(config.repositories.len(), 2);
    assert_eq!(config.repositories[1].commit_message_template, "Custom");
}

#[test]
fn test_remove_one_of_multiple_repositories() {
    let mut config = Config::default();

    add_repository(&mut config, "/tmp/repo1".to_string(), None, None);
    add_repository(&mut config, "/tmp/repo2".to_string(), None, None);

    remove_repository(&mut config, "/tmp/repo1");

    assert_eq!(config.repositories.len(), 1);
    assert!(config.repositories[0].path == "/tmp/repo2");
}

#[test]
fn test_config_survives_operations() {
    let mut config = Config::default();

    add_repository(&mut config, "/tmp/repo1".to_string(), Some("Msg1".to_string()), Some(60));
    add_repository(&mut config, "/tmp/repo2".to_string(), Some("Msg2".to_string()), None);
    disable_repository(&mut config, "/tmp/repo1");

    assert_eq!(config.repositories.len(), 2);
    assert_eq!(config.repositories[0].auto_commit, false);
    assert_eq!(config.repositories[1].auto_commit, true);
    assert_eq!(config.repositories[0].commit_message_template, "Msg1");
    assert_eq!(config.repositories[1].commit_message_template, "Msg2");
}

#[test]
fn test_set_interval_new_value() {
    let mut config = Config::default();
    config.daemon.check_interval_seconds = 120;
    assert_eq!(config.daemon.check_interval_seconds, 120);
}

#[test]
fn test_set_interval_show_current() {
    // 180 seconds reads as three whole minutes
    let description = interval_description(180);
    assert_eq!(description.unwrap(), "3 minutes");

    // 90 seconds reads as a minute and a half
    let description = interval_description(90);
    assert_eq!(description.unwrap(), "1 minute 30 seconds");

    // Under a minute there is nothing to describe
    assert!(interval_description(59).is_none());
}

#[test]
fn test_list_repositories_with_repos() {
    let mut config = Config::default();
    add_repository(&mut config, "/tmp/repo".to_string(), Some("Test message".to_string()), None);
    disable_repository(&mut config, "/tmp/repo");
    add_repository(&mut config, "/tmp/other".to_string(), None, None);

    let rows = repository_rows(&config);
    assert_eq!(rows.len(), 2);
    assert_eq!(rows[0].status, "\u{2717} Disabled");
    assert_eq!(rows[0].path, "/tmp/repo");
    assert_eq!(rows[0].message, "Test message");
    assert_eq!(rows[1].status, "\u{2713} Enabled");
}

#[test]
fn test_repository_clone_keeps_fields() {
    let repo = Repository {
        path: "/home/user/notes".to_string(),
        auto_commit: false,
        commit_message_template: "Notes: {date}".to_string(),
    };
    let copy = repo.clone();
    assert_eq!(copy.path, repo.path);
    assert_eq!(copy.auto_commit, repo.auto_commit);
    assert_eq!(copy.commit_message_template, repo.commit_message_template);
}
