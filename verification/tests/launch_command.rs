use cellar::command::CommandBuilder;
use cellar::command::CommandError;
use cellar::config::DesktopConfig;
use cellar::config::DxvkConfig;
use cellar::config::GameConfig;
use cellar::config::GameInfo;
use cellar::config::GamescopeConfig;
use cellar::config::LaunchConfig;
use cellar::config::WineConfig;

fn create_test_config() -> GameConfig {
    GameConfig {
        game: GameInfo {
            name: "Test Game".to_string(),
            executable: "/path/to/game.exe".to_string(),
            wine_prefix: "/path/to/prefix".to_string(),
            proton_version: "GE-Proton8-32".to_string(),
            dxvk_version: None,
        },
        launch: LaunchConfig {
            launch_options: "PROTON_ENABLE_WAYLAND=1 gamemoderun %command%".to_string(),
            game_args: vec!["--windowed".to_string(), "--dx11".to_string()],
            gamemode: false,
            mangohud: false,
        },
        wine_config: WineConfig::default(),
        dxvk: DxvkConfig::default(),
        gamescope: GamescopeConfig::default(),
        desktop: DesktopConfig::default(),
        installation: None,
    }
}

#[test]
fn command_test_build_complete_launch_command() {
    let config = create_test_config();
    let builder = CommandBuilder::new(config).with_proton_path("/path/to/proton".to_string());

    let launch_command = builder.build().unwrap();

    let args = &launch_command.command;
    assert!(!args.is_empty());
    assert!(args.contains(&"umu-run".to_string()));
    assert!(args.contains(&"/path/to/game.exe".to_string()));

    assert!(launch_command.env_contains("WINEPREFIX"));
    assert!(launch_command.env_contains("PROTONPATH"));
    assert!(launch_command.env_contains("WINEARCH"));

    assert_eq!(launch_command.working_directory, "/path/to/prefix");
}

#[test]
fn command_test_command_builder_creation() {
    let config = create_test_config();
    let builder = CommandBuilder::new(config);

    let builder_with_proton = builder.with_proton_path("/path/to/proton".to_string());

    drop(builder_with_proton);
}

#[test]
fn command_test_processed_command_types() {
    let direct_cmd = vec!["umu-run".to_string(), "game.exe".to_string()];

    assert_eq!(direct_cmd.len(), 2);
    assert_eq!(direct_cmd[0], "umu-run");
    assert_eq!(direct_cmd[1], "game.exe");
}

#[test]
fn command_test_gamemode_wrapper() {
    let mut config = create_test_config();
    config.launch.gamemode = true;
    config.launch.launch_options = "".to_string();

    let builder = CommandBuilder::new(config).with_proton_path("/path/to/proton".to_string());

    let launch_command = builder.build().unwrap();
    let args = &launch_command.command;

    assert_eq!(args[0], "gamemoderun");
    assert!(args.contains(&"umu-run".to_string()));
}

#[test]
fn command_test_gamemode_with_mangohud() {
    let mut config = create_test_config();
    config.launch.gamemode = true;
    config.launch.launch_options = "".to_string();
    config.launch.mangohud = true;

    let builder = CommandBuilder::new(config).with_proton_path("/path/to/proton".to_string());

    let launch_command = builder.build().unwrap();
    let args = &launch_command.command;

    assert_eq!(args[0], "gamemoderun");
    assert_eq!(args[1], "mangohud");
    assert!(args.contains(&"umu-run".to_string()));
}

#[test]
fn command_test_gamemode_with_gamescope_and_mangohud() {
    let mut config = create_test_config();
    config.launch.gamemode = true;
    config.launch.launch_options = "".to_string();
    config.launch.mangohud = true;
    config.gamescope.enabled = true;

    let builder = CommandBuilder::new(config).with_proton_path("/path/to/proton".to_string());

    let launch_command = builder.build().unwrap();
    let args = &launch_command.command;

    assert_eq!(args[0], "gamemoderun");
    assert_eq!(args[1], "gamescope");
    assert!(args.contains(&"--mangoapp".to_string()));
    assert!(args.contains(&"--".to_string()));
    assert!(args.contains(&"umu-run".to_string()));
}

#[test]
fn command_test_gamemode_disabled() {
    let mut config = create_test_config();
    config.launch.gamemode = false;
    config.launch.launch_options = "".to_string();

    let builder = CommandBuilder::new(config).with_proton_path("/path/to/proton".to_string());

    let launch_command = builder.build().unwrap();
    let args = &launch_command.command;

    assert_ne!(args[0], "gamemoderun");
    assert_eq!(args[0], "umu-run");
}

#[test]
fn launch_test_build_complete_launch_command() {
    let config = create_test_config();
    let builder = CommandBuilder::new(config).with_proton_path("/path/to/proton".to_string());

    let launch_command = builder.build().unwrap();

    let args = &launch_command.command;
    assert!(!args.is_empty());
    assert!(args.contains(&"umu-run".to_string()));
    assert!(args.contains(&"/path/to/game.exe".to_string()));

    assert!(launch_command.env_contains("WINEPREFIX"));
    assert!(launch_command.env_contains("PROTONPATH"));
    assert!(launch_command.env_contains("WINEARCH"));

    assert_eq!(launch_command.working_directory, "/path/to/prefix");
}

#[test]
fn launch_test_command_builder_creation() {
    let config = create_test_config();
    let builder = CommandBuilder::new(config);

    let builder_with_proton = builder.with_proton_path("/path/to/proton".to_string());

    drop(builder_with_proton);
}

#[test]
fn launch_test_processed_command_types() {
    let direct_cmd = vec!["umu-run".to_string(), "game.exe".to_string()];

    assert_eq!(direct_cmd.len(), 2);
    assert_eq!(direct_cmd[0], "umu-run");
    assert_eq!(direct_cmd[1], "game.exe");
}

#[test]
fn launch_test_gamemode_wrapper() {
    let mut config = create_test_config();
    config.launch.gamemode = true;
    config.launch.launch_options = "".to_string();

    let builder = CommandBuilder::new(config).with_proton_path("/path/to/proton".to_string());

    let launch_command = builder.build().unwrap();
    let args = &launch_command.command;

    assert_eq!(args[0], "gamemoderun");
    assert!(args.contains(&"umu-run".to_string()));
}

#[test]
fn launch_test_gamemode_with_mangohud() {
    let mut config = create_test_config();
    config.launch.gamemode = true;
    config.launch.launch_options = "".to_string();
    config.launch.mangohud = true;

    let builder = CommandBuilder::new(config).with_proton_path("/path/to/proton".to_string());

    let launch_command = builder.build().unwrap();
    let args = &launch_command.command;

    assert_eq!(args[0], "gamemoderun");
    assert_eq!(args[1], "mangohud");
    assert!(args.contains(&"umu-run".to_string()));
}

#[test]
fn launch_test_gamemode_with_gamescope_and_mangohud() {
    let mut config = create_test_config();
    config.launch.gamemode = true;
    config.launch.launch_options = "".to_string();
    config.launch.mangohud = true;
    config.gamescope.enabled = true;

    let builder = CommandBuilder::new(config).with_proton_path("/path/to/proton".to_string());

    let launch_command = builder.build().unwrap();
    let args = &launch_command.command;

    assert_eq!(args[0], "gamemoderun");
    assert_eq!(args[1], "gamescope");
    assert!(args.contains(&"--mangoapp".to_string()));
    assert!(args.contains(&"--".to_string()));
    assert!(args.contains(&"umu-run".to_string()));
}

#[test]
fn launch_test_gamemode_disabled() {
    let mut config = create_test_config();
    config.launch.gamemode = false;
    config.launch.launch_options = "".to_string();

    let builder = CommandBuilder::new(config).with_proton_path("/path/to/proton".to_string());

    let launch_command = builder.build().unwrap();
    let args = &launch_command.command;

    assert_ne!(args[0], "gamemoderun");
    assert_eq!(args[0], "umu-run");
}

#[test]
fn test_missing_proton_path_fails() {
    let config = create_test_config();
    let builder = CommandBuilder::new(config);

    let result = builder.build();
    assert!(matches!(result, Err(CommandError::MissingProtonPath)));
}

#[test]
fn test_unsafe_option_rejected_before_substitution() {
    // an unknown flag must fail the allowlist even when the override
    // also carries the placeholder
    let mut config = create_test_config();
    config.launch.launch_options = "-badflag %command%".to_string();

    let builder = CommandBuilder::new(config).with_proton_path("/path/to/proton".to_string());
    let result = builder.build();
    assert!(matches!(result, Err(CommandError::UnsafeOption)));
}

#[test]
fn test_dangerous_character_rejected() {
    let mut config = create_test_config();
    config.launch.launch_options = "ab;cd %command%".to_string();

    let builder = CommandBuilder::new(config).with_proton_path("/path/to/proton".to_string());
    assert!(matches!(builder.build(), Err(CommandError::UnsafeOption)));
}

#[test]
fn test_unclosed_quote_rejected() {
    let mut config = create_test_config();
    config.launch.launch_options = "token \"unterminated".to_string();

    let builder = CommandBuilder::new(config).with_proton_path("/path/to/proton".to_string());
    assert!(matches!(builder.build(), Err(CommandError::UnclosedQuote)));
}

#[test]
fn test_multiple_placeholders_rejected() {
    let mut config = create_test_config();
    config.launch.launch_options = "%command% %command%".to_string();

    let builder = CommandBuilder::new(config).with_proton_path("/path/to/proton".to_string());
    assert!(matches!(builder.build(), Err(CommandError::MultiplePlaceholders)));
}

#[test]
fn test_invalid_upscaling_rejected() {
    let mut config = create_test_config();
    config.launch.launch_options = "".to_string();
    config.gamescope.enabled = true;
    config.gamescope.upscaling = "blurry".to_string();

    let builder = CommandBuilder::new(config).with_proton_path("/path/to/proton".to_string());
    assert!(matches!(builder.build(), Err(CommandError::InvalidUpscaling)));
}

#[test]
fn test_overlay_wrapper_alone() {
    // empty override, compositor disabled, overlay enabled: the argv is
    // the overlay binary followed by the base invocation
    let mut config = create_test_config();
    config.launch.launch_options = "".to_string();
    config.launch.mangohud = true;
    config.launch.game_args = vec![];

    let builder = CommandBuilder::new(config).with_proton_path("/path/to/proton".to_string());
    let launch_command = builder.build().unwrap();
    assert_eq!(
        launch_command.command,
        vec!["mangohud".to_string(), "umu-run".to_string(), "/path/to/game.exe".to_string()]
    );
}

#[test]
fn test_placeholder_substitution_position() {
    let mut config = create_test_config();
    config.launch.launch_options = "gamemoderun %command% 1920x1080".to_string();
    config.launch.game_args = vec![];

    let builder = CommandBuilder::new(config).with_proton_path("/path/to/proton".to_string());
    let launch_command = builder.build().unwrap();
    assert_eq!(
        launch_command.command,
        vec![
            "gamemoderun".to_string(),
            "umu-run".to_string(),
            "/path/to/game.exe".to_string(),
            "1920x1080".to_string(),
        ]
    );
}

#[test]
fn test_base_appended_without_placeholder() {
    let mut config = create_test_config();
    config.launch.launch_options = "--fullscreen".to_string();
    config.launch.game_args = vec![];

    let builder = CommandBuilder::new(config).with_proton_path("/path/to/proton".to_string());
    let launch_command = builder.build().unwrap();
    assert_eq!(
        launch_command.command,
        vec![
            "--fullscreen".to_string(),
            "umu-run".to_string(),
            "/path/to/game.exe".to_string(),
        ]
    );
}

#[test]
fn test_quoted_token_kept_whole() {
    let mut config = create_test_config();
    config.launch.launch_options = "tok\"en one\" %command%".to_string();
    config.launch.game_args = vec![];

    let builder = CommandBuilder::new(config).with_proton_path("/path/to/proton".to_string());
    let launch_command = builder.build().unwrap();
    assert_eq!(launch_command.command[0], "token one");
}

#[test]
fn test_numeric_and_resolution_flags_allowed() {
    let mut config = create_test_config();
    config.launch.launch_options = "-w 1920 -h 1080 1920x1080 -5 %command%".to_string();

    let builder = CommandBuilder::new(config).with_proton_path("/path/to/proton".to_string());
    assert!(builder.build().is_ok());
}

#[test]
fn test_environment_values_exact() {
    let mut config = create_test_config();
    config.launch.launch_options = "".to_string();

    let builder = CommandBuilder::new(config).with_proton_path("/path/to/proton".to_string());
    let lc = builder.build().unwrap();

    assert_eq!(lc.env_value("WINEARCH").unwrap(), "win64");
    assert_eq!(lc.env_value("WINEPREFIX").unwrap(), "/path/to/prefix");
    assert_eq!(lc.env_value("PROTONPATH").unwrap(), "/path/to/proton");
    assert_eq!(lc.env_value("PROTON_VERB").unwrap(), "waitforexitandrun");
    assert_eq!(lc.env_value("GAMEID").unwrap(), "umu-default");
    assert_eq!(lc.env_value("WINEESYNC").unwrap(), "1");
    assert_eq!(lc.env_value("WINEFSYNC").unwrap(), "1");
    assert_eq!(lc.env_value("WINEDLLOVERRIDES").unwrap(), "d3d10core,d3d11,d3d9,dxgi=n,b");
    assert_eq!(lc.env_value("DXVK_HUD").unwrap(), "0");
    assert_eq!(lc.env_value("DXVK_ASYNC").unwrap(), "1");
    assert_eq!(lc.env_value("DXVK_STATE_CACHE_PATH").unwrap(), "/path/to/prefix/dxvk_cache");
    assert!(lc.env_value("WINE_LARGE_ADDRESS_AWARE").is_none());
}

#[test]
fn test_dxvk_environment_absent_when_disabled() {
    let mut config = create_test_config();
    config.launch.launch_options = "".to_string();
    config.wine_config.dxvk = false;

    let builder = CommandBuilder::new(config).with_proton_path("/path/to/proton".to_string());
    let lc = builder.build().unwrap();

    assert!(lc.env_value("DXVK_HUD").is_none());
    assert!(lc.env_value("DXVK_STATE_CACHE_PATH").is_none());
    assert_eq!(lc.env_value("WINEDLLOVERRIDES").unwrap(), "");
}

#[test]
fn test_gamescope_flag_order() {
    let mut config = create_test_config();
    config.launch.launch_options = "".to_string();
    config.launch.game_args = vec![];
    config.gamescope.enabled = true;
    config.gamescope.fullscreen = true;

    let builder = CommandBuilder::new(config).with_proton_path("/path/to/proton".to_string());
    let lc = builder.build().unwrap();
    assert_eq!(
        lc.command,
        vec![
            "gamescope".to_string(),
            "-w".to_string(),
            "1920".to_string(),
            "-h".to_string(),
            "1080".to_string(),
            "-W".to_string(),
            "1920".to_string(),
            "-H".to_string(),
            "1080".to_string(),
            "-r".to_string(),
            "60".to_string(),
            "-F".to_string(),
            "fsr".to_string(),
            "-f".to_string(),
            "--".to_string(),
            "umu-run".to_string(),
            "/path/to/game.exe".to_string(),
        ]
    );
}

#[test]
fn test_compile_idempotent() {
    // compiling the same configuration twice yields identical results
    let config = create_test_config();
    let builder1 = CommandBuilder::new(config.clone()).with_proton_path("/p".to_string());
    let builder2 = CommandBuilder::new(config).with_proton_path("/p".to_string());

    let a = builder1.build().unwrap();
    let b = builder2.build().unwrap();
    assert_eq!(a.command, b.command);
    assert_eq!(a.environment, b.environment);
    assert_eq!(a.working_directory, b.working_directory);
}
