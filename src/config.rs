use vstd::prelude::*;

use crate::palette::{name_text, PaletteName};

verus! {

/// Why a configuration is refused before the animation starts.
#[derive(Clone, Copy, Debug, PartialEq, Eq, Structural)]
pub enum ConfigError {
    /// No color set has the requested name.
    UnknownPalette,
    /// The scroll speed is outside `0..=MAX_SCROLL_SPEED`.
    ScrollSpeedOutOfRange,
}

/// The fastest background scroll.
pub const MAX_SCROLL_SPEED: u8 = 10;

/// The scroll speed used when none is given.
pub const DEFAULT_SCROLL_SPEED: u8 = 5;

/// The color set selected by an optional name: the first set when none is given.
pub fn select_palette(name: Option<&str>) -> (r: Result<PaletteName, ConfigError>)
    ensures
        name is None ==> r == Ok::<PaletteName, ConfigError>(PaletteName::Determination),
        name matches Some(t) ==> (r matches Ok(p) ==> name_text(p) == t@),
        name matches Some(t) ==> (r == Err::<PaletteName, ConfigError>(ConfigError::UnknownPalette)
            <==> forall|p: PaletteName| name_text(p) != t@),
        r is Err ==> r == Err::<PaletteName, ConfigError>(ConfigError::UnknownPalette),
{
    match name {
        None => Ok(PaletteName::Determination),
        Some(t) => match PaletteName::parse(t) {
            Some(p) => Ok(p),
            None => Err(ConfigError::UnknownPalette),
        },
    }
}

/// Accepts a scroll speed in `0..=MAX_SCROLL_SPEED`.
pub fn check_scroll_speed(speed: i64) -> (r: Result<u8, ConfigError>)
    ensures
        0 <= speed <= MAX_SCROLL_SPEED ==> r == Ok::<u8, ConfigError>(speed as u8),
        !(0 <= speed <= MAX_SCROLL_SPEED) ==> r == Err::<u8, ConfigError>(
            ConfigError::ScrollSpeedOutOfRange,
        ),
{
    if 0 <= speed && speed <= MAX_SCROLL_SPEED as i64 {
        Ok(speed as u8)
    } else {
        Err(ConfigError::ScrollSpeedOutOfRange)
    }
}

} // verus!
