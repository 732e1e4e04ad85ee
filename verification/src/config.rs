use vstd::prelude::*;

verus! {

/// The working hours of a day.
#[derive(Clone, Copy, Debug, PartialEq, Eq)]
pub struct ScheduleConfig {
    /// Hour work day starts (0–23). Default: 8
    pub start_hour: u8,
    /// Minute work day starts (0–59). Default: 0
    pub start_minute: u8,
    /// Hour work day ends (0–23). Default: 16  (4 pm)
    pub end_hour: u8,
    /// Minute work day ends (0–59). Default: 0
    pub end_minute: u8,
}

/// Hex colors (`"#RRGGBB"`) of the parts of the widget.
#[derive(Clone, Debug, PartialEq, Eq)]
pub struct ColorsConfig {
    /// Hex color for filled Day blocks.    Default: "#4CAF50" (green)
    pub day_filled: String,
    /// Hex color for empty  Day blocks.    Default: "#2D2D2D"
    pub day_empty: String,
    /// Hex color for filled Week blocks.   Default: "#2196F3" (blue)
    pub week_filled: String,
    /// Hex color for empty  Week blocks.   Default: "#2D2D2D"
    pub week_empty: String,
    /// Window background color.            Default: "#1A1A1A"
    pub background: String,
    /// Label and percentage text color.    Default: "#CCCCCC"
    pub text_color: String,
    /// Block fill color on weekends.       Default: "#9C27B0" (purple)
    pub weekend_filled: String,
}

/// How the two progress rows are drawn.
#[derive(Clone, Debug, PartialEq, Eq)]
pub struct DisplayConfig {
    /// Number of progress blocks per row (1–20). Default: 10
    pub blocks: u8,
    /// Show "XX%" percentage after each row.     Default: true
    pub show_percentage: bool,
    /// Text shown on weekends instead of a %.    Default: "Weekend!"
    pub weekend_label: String,
}

/// The whole user configuration.
#[derive(Clone, Debug, PartialEq, Eq)]
pub struct Config {
    pub schedule: ScheduleConfig,
    pub colors: ColorsConfig,
    pub display: DisplayConfig,
}

/// The default schedule: 8:00 to 16:00.
pub open spec fn is_default_schedule(s: ScheduleConfig) -> bool {
    &&& s.start_hour == 8
    &&& s.start_minute == 0
    &&& s.end_hour == 16
    &&& s.end_minute == 0
}

/// The default palette.
pub open spec fn is_default_colors(c: ColorsConfig) -> bool {
    &&& c.day_filled@ == "#4CAF50"@
    &&& c.day_empty@ == "#2D2D2D"@
    &&& c.week_filled@ == "#2196F3"@
    &&& c.week_empty@ == "#2D2D2D"@
    &&& c.background@ == "#1A1A1A"@
    &&& c.text_color@ == "#CCCCCC"@
    &&& c.weekend_filled@ == "#9C27B0"@
}

/// The default display: ten blocks, percentages shown, "Weekend!" on weekends.
pub open spec fn is_default_display(d: DisplayConfig) -> bool {
    &&& d.blocks == 10
    &&& d.show_percentage
    &&& d.weekend_label@ == "Weekend!"@
}

/// The configuration written on first run.
pub open spec fn is_default_config(c: Config) -> bool {
    &&& is_default_schedule(c.schedule)
    &&& is_default_colors(c.colors)
    &&& is_default_display(c.display)
}

impl Default for ScheduleConfig {
    fn default() -> (s: Self)
        ensures
            is_default_schedule(s),
    {
        Self { start_hour: 8, start_minute: 0, end_hour: 16, end_minute: 0 }
    }
}

impl Default for ColorsConfig {
    fn default() -> (c: Self)
        ensures
            is_default_colors(c),
    {
        Self {
            day_filled: String::from_str("#4CAF50"),
            day_empty: String::from_str("#2D2D2D"),
            week_filled: String::from_str("#2196F3"),
            week_empty: String::from_str("#2D2D2D"),
            background: String::from_str("#1A1A1A"),
            text_color: String::from_str("#CCCCCC"),
            weekend_filled: String::from_str("#9C27B0"),
        }
    }
}

impl Default for DisplayConfig {
    fn default() -> (d: Self)
        ensures
            is_default_display(d),
    {
        Self { blocks: 10, show_percentage: true, weekend_label: String::from_str("Weekend!") }
    }
}

impl Default for Config {
    fn default() -> (c: Self)
        ensures
            is_default_config(c),
    {
        Self {
            schedule: ScheduleConfig::default(),
            colors: ColorsConfig::default(),
            display: DisplayConfig::default(),
        }
    }
}

/// What was found at the configuration file's path.
pub enum ConfigFileState {
    /// No file exists there.
    Missing,
    /// A file exists but could not be read, or does not parse as a `Config`.
    Unusable,
    /// A file exists and parses as this configuration.
    Parsed(Config),
}

/// What loading the configuration file comes to: the configuration to use,
/// and whether the default one is to be written to disk.
pub struct LoadedConfig {
    pub config: Config,
    pub write_default: bool,
}

/// Decides what `load` hands back from what was found on disk: a parsed
/// configuration is used as it is; otherwise the default is used. The
/// default is written, so that the user can edit it, only when no file
/// exists; an existing file that cannot be read or parsed is left alone.
pub fn settle_loaded_config(found: ConfigFileState) -> (res: LoadedConfig)
    ensures
        res.write_default <==> found is Missing,
        match found {
            ConfigFileState::Parsed(c) => res.config == c,
            _ => is_default_config(res.config),
        },
{
    match found {
        ConfigFileState::Missing => LoadedConfig { config: Config::default(), write_default: true },
        ConfigFileState::Unusable => LoadedConfig { config: Config::default(), write_default: false },
        ConfigFileState::Parsed(c) => LoadedConfig { config: c, write_default: false },
    }
}

} // verus!
