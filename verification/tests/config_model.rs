use cellar::config::DesktopConfig;
use cellar::config::DxvkConfig;
use cellar::config::GameConfig;
use cellar::config::GameInfo;
use cellar::config::GamescopeConfig;
use cellar::config::LaunchConfig;
use cellar::config::WineConfig;
use cellar::validation::PathFacts;
use cellar::validation::ValidationError;
use cellar::validation::validate_directory_path;
use cellar::validation::validate_file_path;
use cellar::validation::validate_game_config;

#[test]
fn commands_test_basic_config_loading() {
    let config = GameConfig {
        game: GameInfo {
            name: "Test Game".to_string(),
            executable: "/tmp/test.exe".to_string(),
            wine_prefix: "/tmp/prefix".to_string(),
            proton_version: "GE-Proton8-32".to_string(),
            dxvk_version: None,
        },
        launch: LaunchConfig::default(),
        wine_config: WineConfig::default(),
        dxvk: DxvkConfig::default(),
        gamescope: GamescopeConfig::default(),
        desktop: DesktopConfig::default(),
        installation: None,
    };

    assert_eq!(config.game.name, "Test Game");
    assert!(config.wine_config.dxvk);
}

#[test]
fn cli_test_basic_config_loading() {
    let config = GameConfig {
        game: GameInfo {
            name: "Test Game".to_string(),
            executable: "/tmp/test.exe".to_string(),
            wine_prefix: "/tmp/prefix".to_string(),
            proton_version: "GE-Proton8-32".to_string(),
            dxvk_version: None,
        },
        launch: LaunchConfig::default(),
        wine_config: WineConfig::default(),
        dxvk: DxvkConfig::default(),
        gamescope: GamescopeConfig::default(),
        desktop: DesktopConfig::default(),
        installation: None,
    };

    assert_eq!(config.game.name, "Test Game");
    assert!(config.wine_config.dxvk);
}

#[test]
fn game_test_game_config_basic_functionality() {
    let config = GameConfig {
        game: GameInfo {
            name: "Test Game".to_string(),
            executable: "/path/to/game.exe".to_string(),
            wine_prefix: "/path/to/prefix".to_string(),
            proton_version: "GE-Proton8-32".to_string(),
            dxvk_version: None,
        },
        launch: LaunchConfig::default(),
        wine_config: WineConfig::default(),
        dxvk: DxvkConfig::default(),
        gamescope: GamescopeConfig::default(),
        desktop: DesktopConfig::default(),
        installation: None,
    };

    assert_eq!(config.game.name, "Test Game");
    assert_eq!(config.game.proton_version, "GE-Proton8-32");
    assert!(config.wine_config.esync);
    assert!(!config.launch.mangohud);
    assert!(!config.gamescope.enabled);
}

#[test]
fn config_test_game_config_basic_functionality() {
    let config = GameConfig {
        game: GameInfo {
            name: "Test Game".to_string(),
            executable: "/path/to/game.exe".to_string(),
            wine_prefix: "/path/to/prefix".to_string(),
            proton_version: "GE-Proton8-32".to_string(),
            dxvk_version: None,
        },
        launch: LaunchConfig::default(),
        wine_config: WineConfig::default(),
        dxvk: DxvkConfig::default(),
        gamescope: GamescopeConfig::default(),
        desktop: DesktopConfig::default(),
        installation: None,
    };

    assert_eq!(config.game.name, "Test Game");
    assert_eq!(config.game.proton_version, "GE-Proton8-32");
    assert!(config.wine_config.esync);
    assert!(!config.gamescope.enabled);
}

#[test]
fn test_wine_config_defaults() {
    let w = WineConfig::default();
    assert!(w.esync && w.fsync && w.dxvk && w.dxvk_async);
    assert!(!w.large_address_aware);
    assert_eq!(w.wineserver_kill_timeout, 5);
}

#[test]
fn test_gamescope_defaults() {
    let g = GamescopeConfig::default();
    assert!(!g.enabled);
    assert_eq!(g.width, 1920);
    assert_eq!(g.height, 1080);
    assert_eq!(g.output_width, 1920);
    assert_eq!(g.output_height, 1080);
    assert_eq!(g.refresh_rate, 60);
    assert_eq!(g.upscaling, "fsr");
    assert!(g.fullscreen);
}

#[test]
fn test_desktop_defaults() {
    let d = DesktopConfig::default();
    assert!(d.create_shortcut);
    assert!(d.icon_path.is_none());
    assert_eq!(d.categories, vec!["Game".to_string()]);
    assert_eq!(d.keywords, vec!["game".to_string(), "windows".to_string()]);
    assert_eq!(d.comment, "Windows game via Cellar");
}

#[test]
fn test_validation_decisions() {
    let config = GameConfig {
        game: GameInfo {
            name: "Test Game".to_string(),
            executable: "/path/to/game.exe".to_string(),
            wine_prefix: "/path/to/prefix".to_string(),
            proton_version: "GE-Proton8-32".to_string(),
            dxvk_version: None,
        },
        launch: LaunchConfig::default(),
        wine_config: WineConfig::default(),
        dxvk: DxvkConfig::default(),
        gamescope: GamescopeConfig::default(),
        desktop: DesktopConfig::default(),
        installation: None,
    };
    let ok_facts = PathFacts {
        executable_exists: true,
        prefix_has_parent: true,
        prefix_parent_exists: true,
        icon_exists: false,
    };
    assert!(validate_game_config(&config, ok_facts).is_ok());

    let mut unnamed = config.clone();
    unnamed.game.name = "".to_string();
    assert_eq!(
        validate_game_config(&unnamed, ok_facts),
        Err(ValidationError::EmptyGameName)
    );

    let missing_exe = PathFacts { executable_exists: false, ..ok_facts };
    assert_eq!(
        validate_game_config(&config, missing_exe),
        Err(ValidationError::ExecutableMissing)
    );

    let no_parent = PathFacts { prefix_has_parent: false, ..ok_facts };
    assert_eq!(
        validate_game_config(&config, no_parent),
        Err(ValidationError::InvalidWinePrefix)
    );

    let parent_missing = PathFacts { prefix_parent_exists: false, ..ok_facts };
    assert_eq!(
        validate_game_config(&config, parent_missing),
        Err(ValidationError::PrefixParentMissing)
    );

    let mut unversioned = config.clone();
    unversioned.game.proton_version = "".to_string();
    assert_eq!(
        validate_game_config(&unversioned, ok_facts),
        Err(ValidationError::EmptyProtonVersion)
    );

    let mut zero_dim = config.clone();
    zero_dim.gamescope.enabled = true;
    zero_dim.gamescope.width = 0;
    assert_eq!(
        validate_game_config(&zero_dim, ok_facts),
        Err(ValidationError::GamescopeZeroDimension)
    );

    let mut bad_upscale = config.clone();
    bad_upscale.gamescope.enabled = true;
    bad_upscale.gamescope.upscaling = "blurry".to_string();
    assert_eq!(
        validate_game_config(&bad_upscale, ok_facts),
        Err(ValidationError::InvalidUpscalingMode)
    );

    let mut no_categories = config.clone();
    no_categories.desktop.categories = vec![];
    assert_eq!(
        validate_game_config(&no_categories, ok_facts),
        Err(ValidationError::EmptyCategories)
    );

    let mut with_icon = config.clone();
    with_icon.desktop.icon_path = Some("/icons/game.png".to_string());
    assert_eq!(
        validate_game_config(&with_icon, ok_facts),
        Err(ValidationError::IconMissing)
    );
}

#[test]
fn test_validate_file_and_directory_paths() {
    assert!(validate_file_path(true, true).is_ok());
    assert_eq!(validate_file_path(false, false), Err(ValidationError::PathMissing));
    assert_eq!(validate_file_path(true, false), Err(ValidationError::NotAFile));

    assert!(validate_directory_path(true, true).is_ok());
    assert_eq!(validate_directory_path(false, false), Err(ValidationError::PathMissing));
    assert_eq!(validate_directory_path(true, false), Err(ValidationError::NotADirectory));
}
