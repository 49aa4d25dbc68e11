//! Configuration validation. The filesystem facts a check needs (does
//! the executable exist, does the prefix's parent exist) are handed in
//! as plain values by the thin I/O shell; every decision here is exact.

use vstd::prelude::*;

use crate::command::upscaling_flags;
use crate::config::DesktopConfig;
use crate::config::GameConfig;
use crate::config::GamescopeConfig;

verus! {

/// Why a configuration was refused.
#[derive(Debug, Clone, Copy, PartialEq, Eq, Structural)]
pub enum ValidationError {
    /// The game name is empty.
    EmptyGameName,
    /// The executable does not exist.
    ExecutableMissing,
    /// The prefix path has no parent directory.
    InvalidWinePrefix,
    /// The prefix's parent directory does not exist.
    PrefixParentMissing,
    /// The runner version is empty.
    EmptyProtonVersion,
    /// A compositor dimension is zero.
    GamescopeZeroDimension,
    /// A compositor output dimension is zero.
    GamescopeZeroOutput,
    /// The compositor refresh rate is zero.
    GamescopeZeroRefresh,
    /// The compositor's upscaling mode is not one of the known values.
    InvalidUpscalingMode,
    /// The desktop categories are empty.
    EmptyCategories,
    /// The configured icon file does not exist.
    IconMissing,
    /// A path does not exist.
    PathMissing,
    /// A path exists but is not a regular file.
    NotAFile,
    /// A path exists but is not a directory.
    NotADirectory,
}

/// What the filesystem says about the paths a configuration names.
#[derive(Debug, Clone, Copy)]
pub struct PathFacts {
    pub executable_exists: bool,
    pub prefix_has_parent: bool,
    pub prefix_parent_exists: bool,
    pub icon_exists: bool,
}

/// The compositor rule: all dimensions non-zero and a known
/// upscaling mode.
pub open spec fn gamescope_check(g: GamescopeConfig) -> Result<(), ValidationError> {
    if g.width == 0 || g.height == 0 {
        Err(ValidationError::GamescopeZeroDimension)
    } else if g.output_width == 0 || g.output_height == 0 {
        Err(ValidationError::GamescopeZeroOutput)
    } else if g.refresh_rate == 0 {
        Err(ValidationError::GamescopeZeroRefresh)
    } else if upscaling_flags(g.upscaling@) is None {
        Err(ValidationError::InvalidUpscalingMode)
    } else {
        Ok(())
    }
}

/// The desktop rule: at least one category, and the icon present
/// when one is configured.
pub open spec fn desktop_check(d: DesktopConfig, icon_exists: bool) -> Result<
    (),
    ValidationError,
> {
    if d.categories@.len() == 0 {
        Err(ValidationError::EmptyCategories)
    } else if d.icon_path is Some && !icon_exists {
        Err(ValidationError::IconMissing)
    } else {
        Ok(())
    }
}

/// The whole decision on one configuration, in check order.
pub open spec fn config_check(cfg: GameConfig, facts: PathFacts) -> Result<
    (),
    ValidationError,
> {
    if cfg.game.name@.len() == 0 {
        Err(ValidationError::EmptyGameName)
    } else if !facts.executable_exists {
        Err(ValidationError::ExecutableMissing)
    } else if !facts.prefix_has_parent {
        Err(ValidationError::InvalidWinePrefix)
    } else if !facts.prefix_parent_exists {
        Err(ValidationError::PrefixParentMissing)
    } else if cfg.game.proton_version@.len() == 0 {
        Err(ValidationError::EmptyProtonVersion)
    } else if cfg.gamescope.enabled && gamescope_check(cfg.gamescope) is Err {
        gamescope_check(cfg.gamescope)
    } else {
        desktop_check(cfg.desktop, facts.icon_exists)
    }
}

/// Validates the compositor settings.
pub fn validate_gamescope_config(config: &GamescopeConfig) -> (r: Result<(), ValidationError>)
    ensures
        r == gamescope_check(*config),
{
    if config.width == 0 || config.height == 0 {
        return Err(ValidationError::GamescopeZeroDimension);
    }
    if config.output_width == 0 || config.output_height == 0 {
        return Err(ValidationError::GamescopeZeroOutput);
    }
    if config.refresh_rate == 0 {
        return Err(ValidationError::GamescopeZeroRefresh);
    }
    let up = crate::chars::str_to_chars(config.upscaling.as_str());
    let known = crate::chars::chars_eq(&up, &crate::chars::str_to_chars("fsr"))
        || crate::chars::chars_eq(&up, &crate::chars::str_to_chars("nis"))
        || crate::chars::chars_eq(&up, &crate::chars::str_to_chars("integer"))
        || crate::chars::chars_eq(&up, &crate::chars::str_to_chars("stretch"))
        || crate::chars::chars_eq(&up, &crate::chars::str_to_chars("linear"))
        || crate::chars::chars_eq(&up, &crate::chars::str_to_chars("nearest"))
        || crate::chars::chars_eq(&up, &crate::chars::str_to_chars("off"));
    if !known {
        return Err(ValidationError::InvalidUpscalingMode);
    }
    Ok(())
}

/// Validates the desktop settings.
pub fn validate_desktop_config(config: &DesktopConfig, icon_exists: bool) -> (r: Result<
    (),
    ValidationError,
>)
    ensures
        r == desktop_check(*config, icon_exists),
{
    if config.categories.len() == 0 {
        return Err(ValidationError::EmptyCategories);
    }
    if config.icon_path.is_some() && !icon_exists {
        return Err(ValidationError::IconMissing);
    }
    Ok(())
}

/// Validates a whole configuration against the filesystem facts.
pub fn validate_game_config(config: &GameConfig, facts: PathFacts) -> (r: Result<
    (),
    ValidationError,
>)
    ensures
        r == config_check(*config, facts),
{
    if config.game.name.as_str().is_empty() {
        return Err(ValidationError::EmptyGameName);
    }
    if !facts.executable_exists {
        return Err(ValidationError::ExecutableMissing);
    }
    if !facts.prefix_has_parent {
        return Err(ValidationError::InvalidWinePrefix);
    }
    if !facts.prefix_parent_exists {
        return Err(ValidationError::PrefixParentMissing);
    }
    if config.game.proton_version.as_str().is_empty() {
        return Err(ValidationError::EmptyProtonVersion);
    }
    if config.gamescope.enabled {
        match validate_gamescope_config(&config.gamescope) {
            Err(e) => {
                return Err(e);
            },
            Ok(()) => {},
        }
    }
    validate_desktop_config(&config.desktop, facts.icon_exists)
}

/// Validates that a named path exists and is a regular file.
pub fn validate_file_path(exists: bool, is_file: bool) -> (r: Result<(), ValidationError>)
    ensures
        r is Ok <==> exists && is_file,
        !exists ==> r == Err::<(), ValidationError>(ValidationError::PathMissing),
        exists && !is_file ==> r == Err::<(), ValidationError>(ValidationError::NotAFile),
{
    if !exists {
        Err(ValidationError::PathMissing)
    } else if !is_file {
        Err(ValidationError::NotAFile)
    } else {
        Ok(())
    }
}

/// Validates that a named path exists and is a directory.
pub fn validate_directory_path(exists: bool, is_dir: bool) -> (r: Result<(), ValidationError>)
    ensures
        r is Ok <==> exists && is_dir,
        !exists ==> r == Err::<(), ValidationError>(ValidationError::PathMissing),
        exists && !is_dir ==> r == Err::<(), ValidationError>(ValidationError::NotADirectory),
{
    if !exists {
        Err(ValidationError::PathMissing)
    } else if !is_dir {
        Err(ValidationError::NotADirectory)
    } else {
        Ok(())
    }
}

} // verus!
