use autogit::cli::{Cli, Commands};

fn argv(args: &[&str]) -> Vec<String> {
    args.iter().map(|a| a.to_string()).collect()
}

#[test]
fn test_cli_parse_add_basic() {
    let cli = Cli::parse_from(&argv(&["autogit", "add", "/tmp/repo"]));
    match cli.command {
        Commands::Add { path, message, interval } => {
            assert_eq!(path, "/tmp/repo");
            assert_eq!(message, None);
            assert_eq!(interval, None);
        }
        _ => panic!("Expected Add command"),
    }
}

#[test]
fn test_cli_parse_add_with_message() {
    let cli = Cli::parse_from(&argv(&[
        "autogit",
        "add",
        "/tmp/repo",
        "--message",
        "Custom commit: {timestamp}",
    ]));
    match cli.command {
        Commands::Add { path, message, interval } => {
            assert_eq!(path, "/tmp/repo");
            assert_eq!(message, Some("Custom commit: {timestamp}".to_string()));
            assert_eq!(interval, None);
        }
        _ => panic!("Expected Add command"),
    }
}

#[test]
fn test_cli_parse_add_with_interval() {
    let cli = Cli::parse_from(&argv(&["autogit", "add", "/tmp/repo", "--interval", "600"]));
    match cli.command {
        Commands::Add { path, message, interval } => {
            assert_eq!(path, "/tmp/repo");
            assert_eq!(message, None);
            assert_eq!(interval, Some(600));
        }
        _ => panic!("Expected Add command"),
    }
}

#[test]
fn test_cli_parse_add_with_all_options() {
    let cli = Cli::parse_from(&argv(&[
        "autogit",
        "add",
        "/tmp/repo",
        "-m",
        "Test message",
        "-i",
        "900",
    ]));
    match cli.command {
        Commands::Add { path, message, interval } => {
            assert_eq!(path, "/tmp/repo");
            assert_eq!(message, Some("Test message".to_string()));
            assert_eq!(interval, Some(900));
        }
        _ => panic!("Expected Add command"),
    }
}

#[test]
fn test_cli_parse_remove() {
    let cli = Cli::parse_from(&argv(&["autogit", "remove", "/tmp/repo"]));
    match cli.command {
        Commands::Remove { path } => {
            assert_eq!(path, "/tmp/repo");
        }
        _ => panic!("Expected Remove command"),
    }
}

#[test]
fn test_cli_parse_list() {
    let cli = Cli::parse_from(&argv(&["autogit", "list"]));
    assert!(matches!(cli.command, Commands::List));
}

#[test]
fn test_cli_parse_enable() {
    let cli = Cli::parse_from(&argv(&["autogit", "enable", "/tmp/repo"]));
    match cli.command {
        Commands::Enable { path } => {
            assert_eq!(path, "/tmp/repo");
        }
        _ => panic!("Expected Enable command"),
    }
}

#[test]
fn test_cli_parse_disable() {
    let cli = Cli::parse_from(&argv(&["autogit", "disable", "/tmp/repo"]));
    match cli.command {
        Commands::Disable { path } => {
            assert_eq!(path, "/tmp/repo");
        }
        _ => panic!("Expected Disable command"),
    }
}

#[test]
fn test_cli_parse_interval_show() {
    let cli = Cli::parse_from(&argv(&["autogit", "interval"]));
    match cli.command {
        Commands::Interval { seconds } => {
            assert_eq!(seconds, None);
        }
        _ => panic!("Expected Interval command"),
    }
}

#[test]
fn test_cli_parse_interval_set() {
    let cli = Cli::parse_from(&argv(&["autogit", "interval", "300"]));
    match cli.command {
        Commands::Interval { seconds } => {
            assert_eq!(seconds, Some(300));
        }
        _ => panic!("Expected Interval command"),
    }
}

#[test]
fn test_cli_parse_status() {
    let cli = Cli::parse_from(&argv(&["autogit", "status"]));
    assert!(matches!(cli.command, Commands::Status));
}

#[test]
fn test_cli_parse_edit() {
    let cli = Cli::parse_from(&argv(&["autogit", "edit"]));
    assert!(matches!(cli.command, Commands::Edit));
}

#[test]
fn test_cli_parse_now() {
    let cli = Cli::parse_from(&argv(&["autogit", "now"]));
    assert!(matches!(cli.command, Commands::Now));
}

#[test]
fn test_cli_parse_suspend() {
    let cli = Cli::parse_from(&argv(&["autogit", "suspend"]));
    assert!(matches!(cli.command, Commands::Suspend));
}

#[test]
fn test_cli_parse_resume() {
    let cli = Cli::parse_from(&argv(&["autogit", "resume"]));
    assert!(matches!(cli.command, Commands::Resume));
}

#[test]
fn test_cli_parse_unknown_subcommand() {
    let result = Cli::try_parse_from(&argv(&["autogit", "frobnicate"]));
    assert!(result.is_err());
}

#[test]
fn test_cli_parse_bad_interval_value() {
    let result = Cli::try_parse_from(&argv(&["autogit", "interval", "soon"]));
    assert!(result.is_err());
}

#[test]
fn test_cli_parse_missing_option_value() {
    let result = Cli::try_parse_from(&argv(&["autogit", "add", "/tmp/repo", "--message"]));
    assert!(result.is_err());
}
