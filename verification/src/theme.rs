use vstd::prelude::*;

verus! {

/// Registry key that holds the theme settings of the current user.
pub const REG_PATH: &'static str = "Software\\Microsoft\\Windows\\CurrentVersion\\Themes\\Personalize";
/// Registry value that is 1 when apps use the light theme.
pub const REG_KEY: &'static str = "SystemUsesLightTheme";

/// Decides the theme from what reading `REG_KEY` under `REG_PATH` gave
/// (`None` when the key could not be opened or the value not read): the OS
/// is in dark mode unless the value was read and is 1.
pub fn is_dark_mode_from(light_theme_value: Option<u32>) -> (dark: bool)
    ensures
        dark == (light_theme_value != Some(1u32)),
{
    match light_theme_value {
        Some(v) => v != 1,
        None => true,
    }
}

} // verus!
