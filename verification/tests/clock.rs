use kitchentimer::clock::font::Font;
use kitchentimer::clock::Clock;
use kitchentimer::clock::Pause;
use kitchentimer::clock::DAY_NANOS;
use kitchentimer::clock::SECOND;
use kitchentimer::config::Config;
use kitchentimer::cradle::Cradle;
use kitchentimer::layout::Layout;
use kitchentimer::layout::Position;
use kitchentimer::screen::Style;

fn new_clock(now: u64) -> Clock {
    let config = Config { quit: false, fancy: false, font: Font::plain(), commands: Cradle::new() };
    Clock::new(&config, now)
}

#[test]
fn clock_new_starts_at_now() {
    let clock = new_clock(7 * SECOND);
    assert_eq!(clock.start, 7_000_000_000);
    assert_eq!(clock.elapsed, 0);
    assert_eq!(clock.days, 0);
    assert!(!clock.paused);
    assert_eq!(clock.paused_at, Pause::Unset);
    assert_eq!(clock.color_index, None);
    assert_eq!(clock.font.dots, ('█', '█'));
}

#[test]
fn clock_counts_whole_seconds() {
    let clock = new_clock(2 * SECOND);
    assert_eq!(clock.seconds_since_start(0), 0);
    assert_eq!(clock.seconds_since_start(2 * SECOND), 0);
    assert_eq!(clock.seconds_since_start(3 * SECOND - 1), 0);
    assert_eq!(clock.seconds_since_start(3 * SECOND), 1);
    assert_eq!(clock.seconds_since_start(92 * SECOND + 5), 90);
}

#[test]
fn clock_pause_keeps_the_time_continuous() {
    let mut clock = new_clock(0);
    clock.toggle(5 * SECOND);
    assert!(clock.paused);
    assert_eq!(clock.paused_at, Pause::Instant(5 * SECOND));
    assert_eq!(clock.start, 0);
    clock.toggle(8 * SECOND);
    assert!(!clock.paused);
    assert_eq!(clock.paused_at, Pause::Unset);
    assert_eq!(clock.start, 3_000_000_000);
    assert_eq!(clock.seconds_since_start(10 * SECOND), 7);
}

#[test]
fn clock_unpause_with_a_time_that_runs_backwards() {
    let mut clock = new_clock(0);
    clock.pause(9 * SECOND);
    clock.unpause(4 * SECOND);
    assert_eq!(clock.start, 0);
    assert!(!clock.paused);
}

#[test]
fn clock_unpause_without_pause_changes_no_start() {
    let mut clock = new_clock(3 * SECOND);
    clock.unpause(10 * SECOND);
    assert_eq!(clock.start, 3_000_000_000);
    assert!(!clock.paused);
}

#[test]
fn clock_unpause_after_shift_starts_before_now() {
    let mut clock = new_clock(0);
    clock.pause(SECOND);
    clock.shift(10);
    assert_eq!(clock.elapsed, 10);
    assert_eq!(clock.paused_at, Pause::Time(10, 0));
    clock.unpause(2 * SECOND);
    assert_eq!(clock.start, -8_000_000_000);
    assert_eq!(clock.seconds_since_start(2 * SECOND), 10);
    assert_eq!(clock.seconds_since_start(3 * SECOND), 11);
}

#[test]
fn clock_reset_keeps_a_pause() {
    let mut clock = new_clock(0);
    clock.elapsed = 50;
    clock.days = 2;
    clock.color_index = Some(3);
    clock.reset(9 * SECOND);
    assert_eq!(clock.start, 9_000_000_000);
    assert_eq!(clock.elapsed, 0);
    assert_eq!(clock.days, 0);
    assert_eq!(clock.color_index, None);
    assert!(!clock.paused);
    assert_eq!(clock.paused_at, Pause::Unset);

    clock.pause(10 * SECOND);
    clock.reset(12 * SECOND);
    assert!(clock.paused);
    assert_eq!(clock.paused_at, Pause::Instant(12 * SECOND));
    assert_eq!(clock.start, 12_000_000_000);
}

#[test]
fn clock_shift_wraps_at_the_day() {
    let mut clock = new_clock(0);
    clock.elapsed = 5;
    clock.days = 1;
    clock.shift(-10);
    assert_eq!((clock.elapsed, clock.days), (86395, 0));
    assert_eq!(clock.paused_at, Pause::Time(86395, 0));
    clock.shift(10);
    assert_eq!((clock.elapsed, clock.days), (5, 1));
    clock.shift(86400 * 2 + 1);
    assert_eq!((clock.elapsed, clock.days), (6, 3));
}

#[test]
fn clock_shift_back_stops_at_zero_without_days() {
    let mut clock = new_clock(0);
    clock.elapsed = 5;
    clock.shift(-10);
    assert_eq!((clock.elapsed, clock.days), (0, 0));
    clock.elapsed = 30;
    clock.shift(-10);
    assert_eq!((clock.elapsed, clock.days), (20, 0));
    clock.days = 3;
    clock.shift(i32::MIN);
    assert_eq!((clock.elapsed, clock.days), (0, 2));
    clock.days = u32::MAX;
    clock.elapsed = 86399;
    clock.shift(i32::MAX);
    assert_eq!((clock.elapsed, clock.days), ((86399u64 + 2147483647) as u32 % 86400, u32::MAX));
}

#[test]
fn clock_width_grows_with_the_hours() {
    let mut clock = new_clock(0);
    assert_eq!(clock.get_width(), 27);
    clock.elapsed = 3599;
    assert_eq!(clock.get_width(), 27);
    clock.elapsed = 3600;
    assert_eq!(clock.get_width(), 43);
}

#[test]
fn clock_next_day_only_when_the_day_is_over() {
    let mut clock = new_clock(SECOND);
    clock.elapsed = 86399;
    clock.next_day(DAY_NANOS);
    assert_eq!((clock.start, clock.elapsed, clock.days), (1_000_000_000, 86399, 0));
    clock.next_day(DAY_NANOS + SECOND);
    assert_eq!(clock.start, 86_401_000_000_000);
    assert_eq!((clock.elapsed, clock.days), (0, 1));
    clock.days = u32::MAX;
    clock.next_day(3 * DAY_NANOS);
    assert_eq!(clock.days, u32::MAX);
    assert_eq!(clock.start, 172_801_000_000_000);
}

#[test]
fn clock_day_count_is_set_to_the_right() {
    assert_eq!(Clock::day_count(1), "    + 1 DAY");
    assert_eq!(Clock::day_count(2), "   + 2 DAYS");
    assert_eq!(Clock::day_count(12345), "+ 12345 DAYS");
    assert_eq!(Clock::day_count(0), "   + 0 DAYS");
}

#[test]
fn clock_draw_seconds_only() {
    let mut clock = new_clock(0);
    clock.elapsed = 61;
    let mut layout = Layout::new();
    layout.test_update(&clock, 100, 30, 0);
    let frame = clock.draw(&layout, false);
    assert_eq!(frame.len(), 5);
    let font = Font::plain();
    for (i, piece) in frame.iter().enumerate() {
        assert_eq!(piece.position, Position { line: 14 + i as u16, col: 53 });
        assert_eq!(piece.text, format!("{} {}", font.digits[0][i], font.digits[1][i]));
        assert_eq!(piece.style, Style::Clock { faint: false, color: None });
    }
}

#[test]
fn clock_draw_everything() {
    let mut clock = new_clock(0);
    clock.elapsed = 3600 + 23 * 60 + 45;
    clock.days = 1;
    clock.paused = true;
    clock.color_index = Some(2);
    let mut layout = Layout::new();
    layout.force_recalc = true;
    assert!(layout.update(&clock, 100, 30, false));
    let frame = clock.draw(&layout, true);
    // hours, colon, days, minutes, colon, seconds
    assert_eq!(frame.len(), 5 + 2 + 1 + 5 + 2 + 5);
    let font = Font::plain();
    let style = Style::Clock { faint: true, color: Some(2) };
    assert!(frame.iter().all(|p| p.style == style));
    assert_eq!(frame[0].position, layout.clock_hr);
    assert_eq!(frame[0].text, format!("{} {}", font.digits[0][0], font.digits[1][0]));
    assert_eq!(frame[5].position, Position { line: layout.clock_colon1.line + 1, col: layout.clock_colon1.col });
    assert_eq!(frame[5].text, "█");
    assert_eq!(frame[6].position, Position { line: layout.clock_colon1.line + 3, col: layout.clock_colon1.col });
    assert_eq!(frame[7].position, layout.clock_days);
    assert_eq!(frame[7].text, "    + 1 DAY");
    assert_eq!(frame[8].position, layout.clock_min);
    assert_eq!(frame[8].text, format!("{} {}", font.digits[2][0], font.digits[3][0]));
    assert_eq!(frame[13].position, Position { line: layout.clock_colon0.line + 1, col: layout.clock_colon0.col });
    assert_eq!(frame[15].position, layout.clock_sec);
    assert_eq!(frame[19].text, format!("{} {}", font.digits[4][4], font.digits[5][4]));
}

#[test]
fn clock_draw_minutes_on_the_minute() {
    let mut clock = new_clock(0);
    clock.elapsed = 120;
    let mut layout = Layout::new();
    layout.test_update(&clock, 100, 30, 0);
    assert_eq!(clock.draw(&layout, false).len(), 10);
    clock.elapsed = 7200;
    clock.days = 3;
    layout.force_recalc = true;
    layout.update(&clock, 100, 30, false);
    assert_eq!(clock.draw(&layout, false).len(), 5 + 2 + 1 + 5 + 5);
}

#[test]
fn fonts_differ() {
    assert_eq!(Font::normal().dots, ('■', '■'));
    assert_eq!(Font::plain().dots, ('█', '█'));
    assert_eq!(Font::chrome().dots.0, '▄');
    assert_eq!(Font::normal().digits[0][0], "█▀▀▀█");
    assert_eq!(Font::plain().digits[0][0], "█████");
    for font in [Font::normal(), Font::plain(), Font::chrome()] {
        assert_eq!((font.width, font.height), (5, 5));
        for digit in font.digits.iter() {
            for row in digit.iter() {
                assert_eq!(row.chars().count(), 5);
            }
        }
    }
}
