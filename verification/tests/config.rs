use work_time_visualizer::config::{settle_loaded_config, Config, ConfigFileState, ScheduleConfig};

#[test]
fn parsed_config_is_kept() {
    let mut c = Config::default();
    c.schedule = ScheduleConfig { start_hour: 9, start_minute: 30, end_hour: 17, end_minute: 45 };
    c.display.blocks = 20;
    let out = settle_loaded_config(ConfigFileState::Parsed(c.clone()));
    assert_eq!(out.config, c);
    assert!(!out.write_default);
}

#[test]
fn missing_config_falls_back_to_default_and_is_written() {
    let out = settle_loaded_config(ConfigFileState::Missing);
    assert_eq!(out.config, Config::default());
    assert!(out.write_default);
}

#[test]
fn malformed_config_falls_back_to_default_and_is_left_alone() {
    let out = settle_loaded_config(ConfigFileState::Unusable);
    assert_eq!(out.config, Config::default());
    assert!(!out.write_default);
}
