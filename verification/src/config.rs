//! The declarative game configuration: what to run, under which runner,
//! with which wrappers. Paths are carried as plain strings; the thin I/O
//! shell around this crate converts to and from filesystem paths.

use vstd::prelude::*;

verus! {

/// Identity of one configured game.
#[derive(Debug, Clone)]
pub struct GameInfo {
    pub name: String,
    pub executable: String,
    pub wine_prefix: String,
    pub proton_version: String,
    pub dxvk_version: Option<String>,
}

/// How the game is launched: the user override string, extra arguments,
/// and the optional wrappers.
#[derive(Debug, Clone)]
pub struct LaunchConfig {
    pub launch_options: String,
    pub game_args: Vec<String>,
    pub gamemode: bool,
    pub mangohud: bool,
}

/// Wine/Proton runtime switches.
#[derive(Debug, Clone)]
pub struct WineConfig {
    pub esync: bool,
    pub fsync: bool,
    pub dxvk: bool,
    pub dxvk_async: bool,
    pub large_address_aware: bool,
    pub wineserver_kill_timeout: u32,
}

/// DXVK display settings.
#[derive(Debug, Clone)]
pub struct DxvkConfig {
    pub hud: String,
}

/// Gamescope compositor settings.
#[derive(Debug, Clone)]
pub struct GamescopeConfig {
    pub enabled: bool,
    pub width: u32,
    pub height: u32,
    pub output_width: u32,
    pub output_height: u32,
    pub refresh_rate: u32,
    pub upscaling: String,
    pub fullscreen: bool,
    pub force_grab_cursor: bool,
    pub expose_wayland: bool,
    pub hdr: bool,
    pub adaptive_sync: bool,
    pub immediate_flips: bool,
}

/// Desktop-shortcut settings.
#[derive(Debug, Clone)]
pub struct DesktopConfig {
    pub create_shortcut: bool,
    pub icon_path: Option<String>,
    pub categories: Vec<String>,
    pub keywords: Vec<String>,
    pub comment: String,
}

/// Provenance of an installed game, when it was installed by this tool.
#[derive(Debug, Clone)]
pub struct InstallationInfo {
    pub installer_path: String,
    pub install_date: String,
    pub install_location: String,
}

/// One game's whole configuration.
#[derive(Debug, Clone)]
pub struct GameConfig {
    pub game: GameInfo,
    pub launch: LaunchConfig,
    pub wine_config: WineConfig,
    pub dxvk: DxvkConfig,
    pub gamescope: GamescopeConfig,
    pub desktop: DesktopConfig,
    pub installation: Option<InstallationInfo>,
}

impl Default for LaunchConfig {
    fn default() -> (r: Self)
        ensures
            r.launch_options@ == Seq::<char>::empty(),
            r.game_args@ == Seq::<String>::empty(),
            !r.gamemode,
            !r.mangohud,
    {
        LaunchConfig {
            launch_options: String::new(),
            game_args: Vec::new(),
            gamemode: false,
            mangohud: false,
        }
    }
}

impl Default for WineConfig {
    fn default() -> (r: Self)
        ensures
            r.esync && r.fsync && r.dxvk && r.dxvk_async,
            !r.large_address_aware,
            r.wineserver_kill_timeout == 5,
    {
        WineConfig {
            esync: true,
            fsync: true,
            dxvk: true,
            dxvk_async: true,
            large_address_aware: false,
            wineserver_kill_timeout: 5,
        }
    }
}

impl Default for DxvkConfig {
    fn default() -> (r: Self)
        ensures
            r.hud@ == Seq::<char>::empty(),
    {
        DxvkConfig { hud: String::new() }
    }
}

impl Default for GamescopeConfig {
    fn default() -> (r: Self)
        ensures
            !r.enabled,
            r.width == 1920 && r.height == 1080,
            r.output_width == 1920 && r.output_height == 1080,
            r.refresh_rate == 60,
            r.upscaling@ == "fsr"@,
            r.fullscreen,
            !r.force_grab_cursor && !r.expose_wayland && !r.hdr,
            !r.adaptive_sync && !r.immediate_flips,
    {
        GamescopeConfig {
            enabled: false,
            width: 1920,
            height: 1080,
            output_width: 1920,
            output_height: 1080,
            refresh_rate: 60,
            upscaling: String::from_str("fsr"),
            fullscreen: true,
            force_grab_cursor: false,
            expose_wayland: false,
            hdr: false,
            adaptive_sync: false,
            immediate_flips: false,
        }
    }
}

impl Default for DesktopConfig {
    fn default() -> (r: Self)
        ensures
            r.create_shortcut,
            r.icon_path is None,
            r.categories@.len() == 1 && r.categories@[0]@ == "Game"@,
            r.keywords@.len() == 2 && r.keywords@[0]@ == "game"@ && r.keywords@[1]@ == "windows"@,
            r.comment@ == "Windows game via Cellar"@,
    {
        let mut categories: Vec<String> = Vec::new();
        categories.push(String::from_str("Game"));
        let mut keywords: Vec<String> = Vec::new();
        keywords.push(String::from_str("game"));
        keywords.push(String::from_str("windows"));
        DesktopConfig {
            create_shortcut: true,
            icon_path: None,
            categories,
            keywords,
            comment: String::from_str("Windows game via Cellar"),
        }
    }
}

} // verus!
