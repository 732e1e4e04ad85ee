use work_time_visualizer::config::{ColorsConfig, Config, DisplayConfig};
use work_time_visualizer::native_interop::Color;
use work_time_visualizer::theme::is_dark_mode_from;
use work_time_visualizer::time_calc::Fraction;
use work_time_visualizer::window::{
    block_layout, label_rect, row_text, RowText, message_result, percent_rect, row_colors, row_fills,
    widget_position, window_action, BlockFill, Rect, Row, RowMetrics, WindowAction,
    WindowMessage, BLOCKS_X, IDM_EXIT, IDM_SETTINGS, TIMER_REFRESH,
};

fn unscaled() -> RowMetrics {
    RowMetrics {
        padding: 4,
        label_right: 28,
        row_h: 14,
        block_w: 13,
        block_h: 10,
        block_gap: 2,
        radius: 2,
        blocks_x: BLOCKS_X,
        pct_gap: 4,
        pct_w: 28,
    }
}

#[test]
fn quarter_of_ten_blocks() {
    let f = row_fills(Fraction { num: 1, den: 4 }, 10);
    assert_eq!(f.len(), 10);
    assert_eq!(f[0], BlockFill::Filled);
    assert_eq!(f[1], BlockFill::Filled);
    assert_eq!(f[2], BlockFill::Partial { num: 2, den: 4 });
    assert!(f[3..].iter().all(|b| *b == BlockFill::Empty));
}

#[test]
fn full_and_empty_rows() {
    let full = row_fills(Fraction { num: 480, den: 480 }, 10);
    assert!(full.iter().all(|b| *b == BlockFill::Filled));
    let empty = row_fills(Fraction { num: 0, den: 480 }, 10);
    assert!(empty.iter().all(|b| *b == BlockFill::Empty));
}

#[test]
fn tiny_remainder_is_not_blended() {
    // 1/480 of 10 blocks: 10/480 of the first block, above 1/100.
    let f = row_fills(Fraction { num: 1, den: 480 }, 10);
    assert_eq!(f[0], BlockFill::Partial { num: 10, den: 480 });
    // 1/2000 of 10 blocks: 10/2000 = 0.005 of the first block, below 1/100.
    let f = row_fills(Fraction { num: 1, den: 2000 }, 10);
    assert_eq!(f[0], BlockFill::Empty);
}

#[test]
fn filled_blocks_never_unfill() {
    let mut before = row_fills(Fraction { num: 0, den: 480 }, 10);
    for num in 1..=480 {
        let now = row_fills(Fraction { num, den: 480 }, 10);
        for i in 0..10 {
            if before[i] == BlockFill::Filled {
                assert_eq!(now[i], BlockFill::Filled);
            }
        }
        before = now;
    }
}

#[test]
fn blocks_are_laid_out_left_to_right() {
    let l = block_layout(&unscaled(), 4, 10);
    assert_eq!(l.rects.len(), 10);
    assert_eq!(l.corner_diameter, 4);
    assert_eq!(l.rects[0], Rect { left: 32, top: 6, right: 45, bottom: 16 });
    assert_eq!(l.rects[9], Rect { left: 32 + 9 * 15, top: 6, right: 32 + 9 * 15 + 13, bottom: 16 });
    assert!(block_layout(&unscaled(), 4, 0).rects.is_empty());
}

#[test]
fn tall_blocks_centre_toward_zero() {
    let mut m = unscaled();
    m.block_h = 17;
    let l = block_layout(&m, 10, 1);
    // (14 - 17) / 2 == -1 in integer division
    assert_eq!(l.rects[0].top, 9);
}

#[test]
fn percent_text_follows_the_last_block() {
    let r = percent_rect(&unscaled(), 28, 10);
    assert_eq!(r, Rect { left: 32 + 150 - 2 + 4, top: 28, right: 32 + 150 - 2 + 4 + 28, bottom: 42 });
}

#[test]
fn label_sits_in_the_padding() {
    assert_eq!(label_rect(&unscaled(), 4), Rect { left: 4, top: 4, right: 28, bottom: 18 });
}

#[test]
fn weekend_rows_use_the_weekend_color() {
    let colors = ColorsConfig::default();
    let day = row_colors(&colors, Row::Day, false);
    assert_eq!(day.filled, Color::new(0x4C, 0xAF, 0x50));
    assert_eq!(day.empty, Color::new(0x2D, 0x2D, 0x2D));
    assert_eq!(day.text, Color::new(0xCC, 0xCC, 0xCC));
    let week = row_colors(&colors, Row::Week, false);
    assert_eq!(week.filled, Color::new(0x21, 0x96, 0xF3));
    let weekend = row_colors(&colors, Row::Week, true);
    assert_eq!(weekend.filled, Color::new(0x9C, 0x27, 0xB0));
    assert_eq!(weekend.empty, Color::new(0x2D, 0x2D, 0x2D));
}

#[test]
fn row_labels() {
    assert_eq!(Row::Day.label(), "Day");
    assert_eq!(Row::Week.label(), "Wk ");
}

#[test]
fn messages_map_to_actions() {
    assert_eq!(window_action(WindowMessage::Paint), WindowAction::Paint);
    assert_eq!(window_action(WindowMessage::EraseBackground), WindowAction::SuppressErase);
    assert_eq!(window_action(WindowMessage::Timer { timer_id: TIMER_REFRESH }), WindowAction::Refresh);
    assert_eq!(window_action(WindowMessage::Timer { timer_id: 7 }), WindowAction::Nothing);
    assert_eq!(window_action(WindowMessage::RightButtonUp), WindowAction::ShowContextMenu);
    assert_eq!(
        window_action(WindowMessage::Command { wparam: IDM_SETTINGS as usize }),
        WindowAction::OpenSettings
    );
    assert_eq!(
        window_action(WindowMessage::Command { wparam: 0x5_0000 | IDM_EXIT as usize }),
        WindowAction::Exit
    );
    assert_eq!(window_action(WindowMessage::Command { wparam: 3 }), WindowAction::Nothing);
    assert_eq!(window_action(WindowMessage::Destroy), WindowAction::Destroy);
    assert_eq!(window_action(WindowMessage::Other), WindowAction::Default);
}

#[test]
fn message_results() {
    assert_eq!(message_result(WindowAction::SuppressErase), Some(1));
    assert_eq!(message_result(WindowAction::Paint), Some(0));
    assert_eq!(message_result(WindowAction::Default), None);
}

#[test]
fn widget_sits_above_the_taskbar_at_the_right() {
    assert_eq!(widget_position(1920, 1040, 216, 44), (1920 - 216 - 8, 1040 - 44 - 4));
    assert_eq!(widget_position(100, 20, 216, 44), (0, 0));
}

#[test]
fn theme_is_dark_unless_light_is_set() {
    assert!(!is_dark_mode_from(Some(1)));
    assert!(is_dark_mode_from(Some(0)));
    assert!(is_dark_mode_from(Some(2)));
    assert!(is_dark_mode_from(None));
}

#[test]
fn default_config_has_documented_values() {
    let c = Config::default();
    assert_eq!(c.schedule.start_hour, 8);
    assert_eq!(c.schedule.start_minute, 0);
    assert_eq!(c.schedule.end_hour, 16);
    assert_eq!(c.schedule.end_minute, 0);
    assert_eq!(c.colors.day_filled, "#4CAF50");
    assert_eq!(c.colors.day_empty, "#2D2D2D");
    assert_eq!(c.colors.week_filled, "#2196F3");
    assert_eq!(c.colors.week_empty, "#2D2D2D");
    assert_eq!(c.colors.background, "#1A1A1A");
    assert_eq!(c.colors.text_color, "#CCCCCC");
    assert_eq!(c.colors.weekend_filled, "#9C27B0");
    assert_eq!(c.display.blocks, 10);
    assert!(c.display.show_percentage);
    assert_eq!(c.display.weekend_label, "Weekend!");
}

#[test]
fn row_text_choices() {
    let mut d = DisplayConfig::default();
    assert_eq!(row_text(&d, false), RowText::Percentage);
    assert_eq!(row_text(&d, true), RowText::WeekendLabel(String::from("Weekend!")));
    d.show_percentage = false;
    assert_eq!(row_text(&d, false), RowText::Nothing);
    assert_eq!(row_text(&d, true), RowText::Nothing);
}
