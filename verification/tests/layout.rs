use kitchentimer::clock::font::Font;
use kitchentimer::clock::Clock;
use kitchentimer::config::Config;
use kitchentimer::cradle::Cradle;
use kitchentimer::layout::Layout;

fn default_config() -> Config {
    Config { fancy: false, quit: false, commands: Cradle::new(), font: Font::normal() }
}

// Test if layout computation works without panicking.
#[test]
fn layout_computation() {
    let config = default_config();
    let mut clock = Clock::new(&config, 0);
    let mut layout = Layout::new();

    // Two segment display.
    for roster_width in &[0, 10, 20, 30, 40] {
        for width in 0..256 {
            for height in 0..128 {
                layout.test_update(&clock, width, height, *roster_width);
            }
        }
    }
    // Three segment display.
    clock.elapsed = 3600;
    for roster_width in &[0, 10, 20, 30, 40] {
        for width in 0..256 {
            for height in 0..128 {
                layout.test_update(&clock, width, height, *roster_width);
            }
        }
    }
}

#[test]
fn layout_new_knows_no_size() {
    let layout = Layout::new();
    assert!(layout.force_redraw);
    assert!(layout.force_recalc);
    assert_eq!((layout.width, layout.height), (0, 0));
    assert_eq!((layout.roster.col, layout.roster.line), (1, 3));
    assert_eq!(layout.roster_height, 0);
    assert_eq!((layout.buffer.col, layout.buffer.line), (1, 1));
    let p = kitchentimer::layout::Position::new();
    assert_eq!((p.col, p.line), (1, 1));
}

#[test]
fn layout_without_hours() {
    let clock = Clock::new(&default_config(), 0);
    let mut layout = Layout::new();
    layout.test_update(&clock, 100, 30, 20);
    assert_eq!((layout.clock_sec.col, layout.clock_sec.line), (63, 14));
    assert_eq!((layout.clock_colon0.col, layout.clock_colon0.line), (60, 14));
    assert_eq!((layout.clock_min.col, layout.clock_min.line), (47, 14));
    assert_eq!((layout.clock_days.col, layout.clock_days.line), (63, 19));
    assert_eq!(layout.roster_height, 26);
    assert_eq!((layout.buffer.col, layout.buffer.line), (1, 30));
    assert_eq!(layout.roster_width, 20);
    assert_eq!((layout.clock_hr.col, layout.clock_hr.line), (1, 1));
}

#[test]
fn layout_with_hours() {
    let mut clock = Clock::new(&default_config(), 0);
    clock.elapsed = 3600;
    let mut layout = Layout::new();
    assert!(layout.update(&clock, 100, 30, false));
    assert!(!layout.force_recalc);
    assert_eq!((layout.clock_sec.col, layout.clock_sec.line), (61, 14));
    assert_eq!((layout.clock_colon0.col, layout.clock_colon0.line), (58, 14));
    assert_eq!((layout.clock_min.col, layout.clock_min.line), (45, 14));
    assert_eq!((layout.clock_colon1.col, layout.clock_colon1.line), (42, 14));
    assert_eq!((layout.clock_hr.col, layout.clock_hr.line), (29, 14));
    assert!(!layout.update(&clock, 10, 10, false));
    assert_eq!(layout.width, 100);
    assert!(layout.update(&clock, 120, 40, true));
    assert_eq!((layout.width, layout.height), (120, 40));
}

#[test]
fn layout_keeps_positions_in_a_small_terminal() {
    let clock = Clock::new(&default_config(), 0);
    let mut layout = Layout::new();
    layout.test_update(&clock, 100, 30, 0);
    let sec = (layout.clock_sec.col, layout.clock_sec.line);
    layout.test_update(&clock, 26, 30, 0);
    assert_eq!((layout.clock_sec.col, layout.clock_sec.line), sec);
    assert_eq!(layout.width, 26);
    assert_eq!(layout.roster_height, 26);
    layout.test_update(&clock, 100, 4, 0);
    assert_eq!((layout.clock_sec.col, layout.clock_sec.line), sec);
    layout.test_update(&clock, 27, 5, 0);
    assert_eq!((layout.clock_sec.col, layout.clock_sec.line), (16, 1));
    assert_eq!((layout.clock_min.col, layout.clock_min.line), (0, 1));
    assert_eq!(layout.roster_height, 1);
}

#[test]
fn layout_of_the_largest_terminal() {
    let mut clock = Clock::new(&default_config(), 0);
    let mut layout = Layout::new();
    layout.test_update(&clock, 65535, 65535, 65535);
    assert_eq!((layout.clock_sec.col, layout.clock_sec.line), (65535, 32766));
    assert_eq!(layout.clock_colon0.col, 65535);
    assert_eq!(layout.clock_min.col, 65522);
    assert_eq!(layout.roster_height, 65531);
    clock.elapsed = 3600;
    layout.schedule_recalc();
    layout.update(&clock, 65535, 65535, false);
    assert_eq!(layout.clock_sec.col, 65535);
    assert_eq!(layout.clock_hr.col, 65514);
}

#[test]
fn layout_flags_and_roster_width() {
    let mut layout = Layout::new();
    layout.force_recalc = false;
    layout.set_roster_width(0);
    assert!(!layout.force_recalc);
    layout.set_roster_width(12);
    assert!(layout.force_recalc);
    assert_eq!(layout.roster_width, 12);
    layout.force_recalc = false;
    layout.schedule_recalc();
    assert!(layout.force_recalc);
}

#[test]
fn layout_can_hold_counts_bytes() {
    let mut layout = Layout::new();
    layout.width = 5;
    assert!(layout.can_hold(""));
    assert!(layout.can_hold("12345"));
    assert!(!layout.can_hold("123456"));
    assert!(!layout.can_hold("ééé"));
}
