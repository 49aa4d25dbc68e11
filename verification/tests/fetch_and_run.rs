use cellar::command::CommandError;
use cellar::executor::GameLauncher;
use cellar::executor::RunOutcome;
use cellar::fetch::FetchError;
use cellar::fetch::check_declared_size;
use cellar::fetch::check_reported_length;
use cellar::fetch::check_transferred_size;

#[test]
fn test_fetch_size_checks() {
    // declared 500MB under a 1GB ceiling passes the up-front check,
    // but one extra transferred byte fails the final one
    let declared: u64 = 500 * 1024 * 1024;
    let ceiling: u64 = 1024 * 1024 * 1024;
    assert!(check_declared_size(declared, ceiling).is_ok());
    assert_eq!(
        check_transferred_size(declared, declared + 1),
        Err(FetchError::SizeMismatch)
    );
    assert!(check_transferred_size(declared, declared).is_ok());
}

#[test]
fn test_fetch_oversized_asset_refused() {
    assert_eq!(check_declared_size(2048, 1024), Err(FetchError::AssetTooLarge));
    assert!(check_declared_size(1024, 1024).is_ok());
}

#[test]
fn test_fetch_reported_length() {
    assert!(check_reported_length(100, None).is_ok());
    assert!(check_reported_length(100, Some(100)).is_ok());
    assert_eq!(check_reported_length(100, Some(99)), Err(FetchError::SizeMismatch));
}

#[test]
fn test_needs_shell_heuristic() {
    let launcher = GameLauncher {
        dirs: cellar::dirs::CellarDirectories::from_home("/home/player"),
    };
    assert!(launcher.needs_shell(&vec!["VAR=1".to_string(), "prog".to_string()]));
    assert!(!launcher.needs_shell(&vec!["prog".to_string(), "VAR=1".to_string()]));
    assert!(!launcher.needs_shell(&vec![]));
}

#[test]
fn test_shell_quoting() {
    let launcher = GameLauncher {
        dirs: cellar::dirs::CellarDirectories::from_home("/home/player"),
    };
    assert_eq!(
        launcher.shell_quote_command(&vec![
            "prog".to_string(),
            "a b".to_string(),
            "he\"llo".to_string(),
            "plain".to_string(),
        ]),
        "prog \"a b\" \"he\\\"llo\" plain"
    );
    assert_eq!(launcher.shell_quote_command(&vec![]), "");
}

#[test]
fn test_classify_success_passes_through() {
    let launcher = GameLauncher {
        dirs: cellar::dirs::CellarDirectories::from_home("/home/player"),
    };
    assert!(matches!(
        launcher.classify_output(true, "err:module: something failed\n"),
        RunOutcome::Success
    ));
}

#[test]
fn test_classify_benign_noise() {
    let launcher = GameLauncher {
        dirs: cellar::dirs::CellarDirectories::from_home("/home/player"),
    };
    let noise = "fixme:dwmapi:DwmSetWindowAttribute error stub\n\
                 err:setupapi:create_dest_file failed\n\
                 wine-staging error notice\n\
                 winediag: error note\n\
                 \n";
    assert!(matches!(launcher.classify_output(false, noise), RunOutcome::BenignNonZero));
}

#[test]
fn test_classify_critical_lines_reported() {
    let launcher = GameLauncher {
        dirs: cellar::dirs::CellarDirectories::from_home("/home/player"),
    };
    let output = "fixme:thread error noise\n\
                  err:vulkan: device creation FAILED\n\
                  plain note\n\
                  Error: missing dll\n";
    match launcher.classify_output(false, output) {
        RunOutcome::Failed(msg) => {
            assert_eq!(msg, "err:vulkan: device creation FAILED\nError: missing dll");
        },
        _ => panic!("expected the failing outcome"),
    }
}

#[test]
fn test_error_messages_are_stable() {
    assert_eq!(
        CommandError::UnclosedQuote.message(),
        "Unclosed quote in launch options"
    );
    assert_eq!(
        CommandError::MultiplePlaceholders.message(),
        "Multiple %command% placeholders found"
    );
}
