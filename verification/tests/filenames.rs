use cellar::dirs::CellarDirectories;
use cellar::dirs::FsError;
use cellar::dirs::expand_tilde;
use cellar::dirs::expand_tilde_with_home;
use cellar::dirs::sanitize_filename;

#[test]
fn utils_test_sanitize_filename() {
    assert_eq!(sanitize_filename("My Game"), "my_game");
    assert_eq!(sanitize_filename("Game: The Sequel"), "game__the_sequel");
    assert_eq!(sanitize_filename("Game/Part\\Two"), "game_part_two");
    assert_eq!(sanitize_filename("Game With Spaces"), "game_with_spaces");
    assert_eq!(sanitize_filename("Game*With?Special<Chars>"), "game_with_special_chars_");
    assert_eq!(sanitize_filename("UPPERCASE GAME"), "uppercase_game");
    assert_eq!(sanitize_filename(""), "");
    assert_eq!(sanitize_filename("123 Game"), "123_game");
}

#[test]
fn fs_test_sanitize_filename() {
    assert_eq!(sanitize_filename("My Game"), "my_game");
    assert_eq!(sanitize_filename("Game: The Sequel"), "game__the_sequel");
    assert_eq!(sanitize_filename("Game/Part\\Two"), "game_part_two");
    assert_eq!(sanitize_filename("Game With Spaces"), "game_with_spaces");
    assert_eq!(sanitize_filename("Game*With?Special<Chars>"), "game_with_special_chars_");
    assert_eq!(sanitize_filename("UPPERCASE GAME"), "uppercase_game");
    assert_eq!(sanitize_filename(""), "");
    assert_eq!(sanitize_filename("123 Game"), "123_game");
}

#[test]
fn utils_test_expand_tilde() {
    let regular_path = "/usr/bin/ls";
    let expanded = expand_tilde(regular_path).unwrap();
    assert_eq!(expanded, regular_path);

    let relative_path = "games/test.exe";
    let expanded = expand_tilde(relative_path).unwrap();
    assert_eq!(expanded, relative_path);

    let tilde_path = "~/Documents/test.exe";
    let expanded = expand_tilde(tilde_path).unwrap();
    assert!(expanded.contains("Documents/test.exe"));
    assert!(!expanded.contains("~"));

    let just_tilde = "~";
    let expanded = expand_tilde(just_tilde).unwrap();
    assert!(!expanded.contains("~"));
    assert!(std::path::Path::new(&expanded).is_absolute());
}

#[test]
fn fs_test_expand_tilde() {
    let regular_path = "/usr/bin/ls";
    let expanded = expand_tilde(regular_path).unwrap();
    assert_eq!(expanded, regular_path);

    let relative_path = "games/test.exe";
    let expanded = expand_tilde(relative_path).unwrap();
    assert_eq!(expanded, relative_path);

    let tilde_path = "~/Documents/test.exe";
    let expanded = expand_tilde(tilde_path).unwrap();
    assert!(expanded.contains("Documents/test.exe"));
    assert!(!expanded.contains("~"));

    let just_tilde = "~";
    let expanded = expand_tilde(just_tilde).unwrap();
    assert!(!expanded.contains("~"));
    assert!(std::path::Path::new(&expanded).is_absolute());
}

#[test]
fn test_expand_tilde_with_known_home() {
    assert_eq!(
        expand_tilde_with_home("~/games/a.exe", Some("/home/player")).unwrap(),
        "/home/player/games/a.exe"
    );
    assert_eq!(expand_tilde_with_home("~", Some("/home/player")).unwrap(), "/home/player");
    assert_eq!(expand_tilde_with_home("/abs", Some("/home/player")).unwrap(), "/abs");
    assert_eq!(
        expand_tilde_with_home("~/games", None),
        Err(FsError::NoHomeDirectory)
    );
    assert_eq!(expand_tilde_with_home("~", None), Err(FsError::NoHomeDirectory));
    assert_eq!(expand_tilde_with_home("plain", None).unwrap(), "plain");
}

#[test]
fn test_directory_layout() {
    let dirs = CellarDirectories::from_home("/home/player");
    assert_eq!(dirs.base_dir, "/home/player/.local/share/cellar");
    assert_eq!(dirs.runners_dir, "/home/player/.local/share/cellar/runners");
    assert_eq!(dirs.prefixes_dir, "/home/player/.local/share/cellar/prefixes");
    assert_eq!(dirs.configs_dir, "/home/player/.local/share/cellar/configs");
    assert_eq!(dirs.icons_dir, "/home/player/.local/share/cellar/icons");
    assert_eq!(dirs.applications_dir, "/home/player/.local/share/applications");
    assert_eq!(dirs.cache_dir, "/home/player/.local/share/cellar/cache");

    assert_eq!(
        dirs.get_game_config_path("Test Game"),
        "/home/player/.local/share/cellar/configs/test_game.toml"
    );
    assert_eq!(
        dirs.get_game_icon_path("Test Game", "png"),
        "/home/player/.local/share/cellar/icons/test_game.png"
    );
    assert_eq!(
        dirs.get_game_shortcut_path("Test Game"),
        "/home/player/.local/share/applications/cellar-test_game.desktop"
    );
    assert!(dirs.get_runners_path().ends_with("runners"));
    assert!(dirs.get_prefixes_path().ends_with("prefixes"));
    assert!(dirs.get_cache_path().ends_with("cache"));

    let required = dirs.required_directories();
    assert_eq!(required.len(), 9);
    assert_eq!(required[0], dirs.base_dir);
    assert_eq!(required[7], "/home/player/.local/share/cellar/runners/proton");
    assert_eq!(required[8], "/home/player/.local/share/cellar/runners/dxvk");
}
