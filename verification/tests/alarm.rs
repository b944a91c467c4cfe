use kitchentimer::alarm::panel;
use kitchentimer::alarm::parse_time;
use kitchentimer::alarm::Alarm;
use kitchentimer::alarm::AlarmRoster;
use kitchentimer::alarm::Countdown;
use kitchentimer::alarm::ErrorKind;
use kitchentimer::clock::font::Font;
use kitchentimer::clock::Clock;
use kitchentimer::config::Config;
use kitchentimer::cradle::Cradle;
use kitchentimer::layout::Layout;
use kitchentimer::layout::Position;
use kitchentimer::screen::Style;

fn roster_of(inputs: &[&str]) -> AlarmRoster {
    let mut roster = AlarmRoster::new();
    for input in inputs {
        assert_eq!(roster.add(&input.to_string()), Ok(()));
    }
    roster
}

fn clock_at(elapsed: u32) -> Clock {
    let config = Config { quit: false, fancy: false, font: Font::normal(), commands: Cradle::new() };
    let mut clock = Clock::new(&config, 0);
    clock.elapsed = elapsed;
    clock
}

fn layout_of(width: u16, height: u16, roster_width: u16) -> Layout {
    let mut layout = Layout::new();
    layout.test_update(&clock_at(0), width, height, roster_width);
    layout
}

fn times(roster: &AlarmRoster) -> Vec<u32> {
    (0..roster.len()).map(|i| roster.get(i).unwrap().time).collect()
}

fn flags(roster: &AlarmRoster) -> Vec<bool> {
    (0..roster.len()).map(|i| roster.get(i).unwrap().exceeded).collect()
}

#[test]
fn add_keeps_the_order_of_times() {
    let roster = roster_of(&["30", "10", "1:00:00", "20", "5:00", "1"]);
    assert_eq!(times(&roster), vec![1, 10, 20, 30, 300, 3600]);
}

#[test]
fn add_gives_colours_in_turn() {
    let roster = roster_of(&["70", "60", "50", "40", "30", "20", "10"]);
    let colours: Vec<usize> = (0..7).map(|i| roster.get(i).unwrap().color_index).collect();
    assert_eq!(colours, vec![0, 5, 4, 3, 2, 1, 0]);
}

#[test]
fn add_refuses_zero_and_a_day_or_more() {
    let mut roster = AlarmRoster::new();
    assert_eq!(roster.add(&"0".to_string()), Err(ErrorKind::ZeroDuration));
    assert_eq!(roster.add(&"".to_string()), Err(ErrorKind::ZeroDuration));
    assert_eq!(roster.add(&"86400".to_string()), Err(ErrorKind::OutOfRange));
    assert_eq!(roster.add(&"24:00:00".to_string()), Err(ErrorKind::OutOfRange));
    assert_eq!(roster.add(&"4294967295:00:00".to_string()), Err(ErrorKind::OutOfRange));
    assert_eq!(roster.len(), 0);
    assert_eq!(roster.add(&"23:59:59".to_string()), Ok(()));
    assert_eq!(roster.get(0).unwrap().time, 86399);
}

#[test]
fn add_reads_time_and_label_and_refuses_duplicates() {
    let mut roster = AlarmRoster::new();
    assert_eq!(roster.add(&"1:30/Tea".to_string()), Ok(()));
    assert_eq!(roster.len(), 1);
    let alarm = roster.get(0).unwrap();
    assert_eq!(alarm.time, 90);
    assert_eq!(alarm.label, "Tea");
    assert!(!alarm.exceeded);
    assert_eq!(roster.add(&"1:30/Tea".to_string()), Err(ErrorKind::Duplicate));
    assert_eq!(roster.add(&"90".to_string()), Err(ErrorKind::Duplicate));
    assert_eq!(roster.len(), 1);
}

#[test]
fn add_reports_each_fault_of_the_time() {
    let mut roster = AlarmRoster::new();
    assert_eq!(roster.add(&"abc".to_string()), Err(ErrorKind::Parse));
    assert_eq!(roster.add(&"1 :30".to_string()), Err(ErrorKind::Parse));
    assert_eq!(roster.add(&"-5".to_string()), Err(ErrorKind::Parse));
    assert_eq!(roster.add(&"4294967296".to_string()), Err(ErrorKind::Parse));
    assert_eq!(roster.add(&"1:2:3:4".to_string()), Err(ErrorKind::TooManySegments));
    assert_eq!(roster.add(&":1:2:3".to_string()), Err(ErrorKind::TooManySegments));
    assert_eq!(roster.add(&"1:90".to_string()), Err(ErrorKind::FieldRange));
    assert_eq!(roster.add(&"1:60:00".to_string()), Err(ErrorKind::FieldRange));
    assert_eq!(roster.add(&":60".to_string()), Err(ErrorKind::FieldRange));
    assert_eq!(roster.add(&"x:1:90".to_string()), Err(ErrorKind::FieldRange));
    assert_eq!(roster.len(), 0);
}

#[test]
fn add_takes_times_in_all_their_forms() {
    let roster = roster_of(&["90:00", " 10 /x", "+5", ":30", "30:", "1::", "0:02:03", "007"]);
    assert_eq!(times(&roster), vec![5, 7, 10, 30, 123, 1800, 3600, 5400]);
    assert_eq!(roster.get(2).unwrap().label, "x");
}

#[test]
fn add_without_delimiter_gives_an_empty_label() {
    let roster = roster_of(&["1:30"]);
    assert_eq!(roster.get(0).unwrap().label, "");
}

#[test]
fn add_cuts_the_label_at_the_first_delimiter_only() {
    let roster = roster_of(&["5/a/b", "6/ spaced "]);
    assert_eq!(roster.get(0).unwrap().label, "a/b");
    assert_eq!(roster.get(1).unwrap().label, " spaced ");
}

#[test]
fn add_truncates_a_long_label() {
    let long = "a".repeat(50);
    let mut roster = AlarmRoster::new();
    assert_eq!(roster.add(&format!("5/{}", long)), Ok(()));
    let expected = format!("{}…", "a".repeat(48));
    assert_eq!(roster.get(0).unwrap().label, expected);

    let exact = "b".repeat(48);
    assert_eq!(roster.add(&format!("6/{}", exact)), Ok(()));
    assert_eq!(roster.get(1).unwrap().label, exact);
}

#[test]
fn add_counts_grapheme_clusters_not_characters() {
    let cluster = "e\u{301}";
    let mut roster = AlarmRoster::new();
    assert_eq!(roster.add(&format!("5/{}", cluster.repeat(48))), Ok(()));
    assert_eq!(roster.get(0).unwrap().label, cluster.repeat(48));
    assert_eq!(roster.add(&format!("6/{}", cluster.repeat(49))), Ok(()));
    assert_eq!(roster.get(1).unwrap().label, format!("{}…", cluster.repeat(48)));
}

#[test]
fn error_messages() {
    assert_eq!(ErrorKind::Parse.message(), "Could not parse value as integer.");
    assert_eq!(ErrorKind::TooManySegments.message(), "Too many segments to parse as time.");
    assert_eq!(ErrorKind::FieldRange.message(), "Minutes and seconds must be below 60.");
    assert_eq!(ErrorKind::ZeroDuration.message(), "Evaluates to zero.");
    assert_eq!(ErrorKind::OutOfRange.message(), "Values >24h not supported.");
    assert_eq!(
        ErrorKind::Duplicate.message(),
        "Already exists. Duplicate entries not supported."
    );
}

#[test]
fn parse_time_weighs_the_fields() {
    let chars: Vec<char> = "xx1:02:03yy".chars().collect();
    assert_eq!(parse_time(&chars, 2, 9), Ok(3723));
    assert_eq!(parse_time(&chars, 2, 6), Ok(62));
    assert_eq!(parse_time(&chars, 2, 2), Ok(0));
    assert_eq!(parse_time(&chars, 0, 9), Err(ErrorKind::Parse));
}

#[test]
fn pop_takes_the_latest_alarm() {
    let mut roster = roster_of(&["30/c", "10/a", "20/b"]);
    let last = roster.pop().unwrap();
    assert_eq!(last.time, 30);
    assert_eq!(last.label, "c");
    assert_eq!(times(&roster), vec![10, 20]);
    assert!(roster.pop().is_some());
    assert!(roster.pop().is_some());
    assert!(roster.pop().is_none());
    assert_eq!(roster.len(), 0);
}

#[test]
fn check_at_the_exact_time_returns_the_alarm_once() {
    let mut roster = roster_of(&["10/a", "20/b"]);
    let layout = layout_of(100, 30, 0);
    let mut countdown = Countdown::new();
    let mut clock = clock_at(9);
    assert!(roster.check(&mut clock, &layout, &mut countdown, false).is_none());
    assert_eq!(countdown.value, 1);
    assert_eq!(flags(&roster), vec![false, false]);

    clock.elapsed = 10;
    let alarm = roster.check(&mut clock, &layout, &mut countdown, false).unwrap();
    assert_eq!(alarm.time, 10);
    assert_eq!(alarm.label, "a");
    assert!(alarm.exceeded);
    assert_eq!(flags(&roster), vec![true, false]);
    assert_eq!(clock.color_index, Some(0));
    assert_eq!(countdown.value, 10);

    assert!(roster.check(&mut clock, &layout, &mut countdown, false).is_none());
    assert_eq!(flags(&roster), vec![true, false]);
}

#[test]
fn check_after_a_jump_marks_all_and_returns_the_first() {
    let mut roster = roster_of(&["10", "20", "30"]);
    let layout = layout_of(100, 30, 0);
    let mut countdown = Countdown::new();
    let mut clock = clock_at(25);
    let alarm = roster.check(&mut clock, &layout, &mut countdown, false).unwrap();
    assert_eq!(alarm.time, 10);
    assert_eq!(flags(&roster), vec![true, true, false]);
    assert_eq!(clock.color_index, Some(1));
    assert_eq!(countdown.value, 5);
    assert_eq!(countdown.position, Some(Position { line: 5, col: 4 }));

    assert!(roster.check(&mut clock, &layout, &mut countdown, false).is_none());
    assert_eq!(flags(&roster), vec![true, true, false]);
    assert_eq!(countdown.value, 5);
}

#[test]
fn check_resets_the_countdown_when_nothing_is_left() {
    let mut roster = roster_of(&["10"]);
    let layout = layout_of(100, 30, 0);
    let mut countdown = Countdown::new();
    let mut clock = clock_at(5);
    assert!(roster.check(&mut clock, &layout, &mut countdown, false).is_none());
    assert_eq!(countdown.value, 5);
    assert!(countdown.has_position());
    clock.elapsed = 10;
    assert!(roster.check(&mut clock, &layout, &mut countdown, false).is_some());
    assert_eq!(countdown.value, 0);
    assert!(!countdown.has_position());
}

#[test]
fn check_keeps_the_place_of_the_countdown_unless_forced() {
    let mut roster = roster_of(&["10/abc", "20/defgh"]);
    let layout = layout_of(100, 30, 0);
    let mut countdown = Countdown::new();
    let mut clock = clock_at(1);
    roster.check(&mut clock, &layout, &mut countdown, false);
    assert_eq!(countdown.position, Some(Position { line: 3, col: 7 }));
    let moved = layout_of(100, 30, 0);
    countdown.position = Some(Position { line: 9, col: 9 });
    roster.check(&mut clock, &moved, &mut countdown, false);
    assert_eq!(countdown.position, Some(Position { line: 9, col: 9 }));
    roster.check(&mut clock, &moved, &mut countdown, true);
    assert_eq!(countdown.position, Some(Position { line: 3, col: 7 }));
}

#[test]
fn idle_means_every_alarm_was_raised() {
    let mut roster = AlarmRoster::new();
    assert!(roster.idle());
    roster.add(&"10".to_string()).unwrap();
    roster.add(&"20".to_string()).unwrap();
    assert!(!roster.idle());
    let layout = layout_of(100, 30, 0);
    let mut countdown = Countdown::new();
    let mut clock = clock_at(10);
    roster.check(&mut clock, &layout, &mut countdown, false);
    assert!(!roster.idle());
    clock.elapsed = 20;
    roster.check(&mut clock, &layout, &mut countdown, false);
    assert!(roster.idle());
    roster.reset_all();
    assert!(!roster.idle());
    assert_eq!(flags(&roster), vec![false, false]);
}

#[test]
fn time_travel_marks_by_time_alone() {
    let mut roster = roster_of(&["10", "20", "30"]);
    let layout = layout_of(100, 30, 0);
    let mut countdown = Countdown::new();
    let mut clock = clock_at(30);
    roster.check(&mut clock, &layout, &mut countdown, false);
    assert_eq!(flags(&roster), vec![true, true, true]);

    clock.elapsed = 20;
    roster.time_travel(&mut clock);
    assert_eq!(flags(&roster), vec![true, true, false]);
    assert_eq!(clock.color_index, Some(1));
    roster.time_travel(&mut clock);
    assert_eq!(flags(&roster), vec![true, true, false]);
    assert_eq!(clock.color_index, Some(1));

    clock.elapsed = 5;
    roster.time_travel(&mut clock);
    assert_eq!(flags(&roster), vec![false, false, false]);
    assert_eq!(clock.color_index, None);

    let mut fresh = roster_of(&["10", "20", "30"]);
    clock.elapsed = 20;
    fresh.time_travel(&mut clock);
    assert_eq!(flags(&fresh), vec![true, true, false]);
}

#[test]
fn scrolling_stays_within_what_is_out_of_sight() {
    let mut roster = roster_of(&["1", "2", "3", "4", "5", "6"]);
    let layout = layout_of(100, 8, 0);
    assert_eq!(layout.roster_height, 4);
    roster.scroll_up(&layout);
    assert_eq!(roster.offset(), 0);
    roster.scroll_down(&layout);
    assert_eq!(roster.offset(), 1);
    roster.scroll_down(&layout);
    assert_eq!(roster.offset(), 2);
    roster.scroll_down(&layout);
    assert_eq!(roster.offset(), 2);
    roster.scroll_up(&layout);
    assert_eq!(roster.offset(), 1);
    let tall = layout_of(100, 30, 0);
    roster.adjust_offset(&tall);
    assert_eq!(roster.offset(), 0);
}

#[test]
fn width_is_four_more_than_the_widest_label() {
    let mut roster = AlarmRoster::new();
    assert_eq!(roster.width(), 0);
    roster.add(&"5".to_string()).unwrap();
    assert_eq!(roster.width(), 4);
    roster.add(&"6/Tea".to_string()).unwrap();
    assert_eq!(roster.width(), 7);
    roster.add(&"7/日本".to_string()).unwrap();
    assert_eq!(roster.width(), 8);
    roster.add(&"8/ab".to_string()).unwrap();
    assert_eq!(roster.width(), 8);
}

#[test]
fn panel_caps_the_width() {
    assert_eq!(panel(0, 0), 0);
    assert_eq!(panel(10, 0), 0);
    assert_eq!(panel(0, 1), 4);
    assert_eq!(panel(10, 3), 14);
    assert_eq!(panel(65531, 1), 65535);
    assert_eq!(panel(65532, 1), 65535);
    assert_eq!(panel(usize::MAX, 1), 65535);
}

#[test]
fn from_stdin_skips_comments_and_stops_at_a_fault() {
    let mut roster = AlarmRoster::new();
    let lines: Vec<String> =
        vec!["# times", "", "   ", "10/a", " #5", "20/b"].iter().map(|s| s.to_string()).collect();
    assert_eq!(
        roster.from_stdin(&lines),
        Err("Value \" #5\": Could not parse value as integer.".to_string())
    );
    assert_eq!(times(&roster), vec![10]);

    let lines: Vec<String> = vec!["#x", "30", "20/b"].iter().map(|s| s.to_string()).collect();
    assert_eq!(roster.from_stdin(&lines), Ok(()));
    assert_eq!(times(&roster), vec![10, 20, 30]);

    let lines: Vec<String> = vec!["20".to_string(), "40".to_string()];
    assert_eq!(
        roster.from_stdin(&lines),
        Err("Value \"20\": Already exists. Duplicate entries not supported.".to_string())
    );
    assert_eq!(times(&roster), vec![10, 20, 30]);
}

#[test]
fn countdown_basics() {
    let mut countdown = Countdown::new();
    assert_eq!(countdown.value, 0);
    assert!(!countdown.has_position());
    assert!(countdown.draw().is_none());
    countdown.set(65);
    assert_eq!(countdown.value, 65);
    let layout = layout_of(100, 30, 0);
    countdown.place_at(&layout, 3, 0, 2);
    assert!(countdown.has_position());
    assert_eq!(countdown.position, Some(Position { line: 5, col: 7 }));
    countdown.reset();
    assert_eq!(countdown.value, 0);
    assert!(!countdown.has_position());
}

#[test]
fn countdown_text() {
    let mut countdown = Countdown::new();
    countdown.position = Some(Position { line: 4, col: 9 });
    countdown.set(65);
    let piece = countdown.draw().unwrap();
    assert_eq!(piece.text, "(-01:05)");
    assert_eq!(piece.position, Position { line: 4, col: 9 });
    assert_eq!(piece.style, Style::Countdown);
    countdown.set(3599);
    assert_eq!(countdown.draw().unwrap().text, "(-59:59)   ");
    countdown.set(3600);
    assert_eq!(countdown.draw().unwrap().text, "(-01:00:00)");
    countdown.set(86399);
    assert_eq!(countdown.draw().unwrap().text, "(-23:59:59)");
    countdown.set(360000);
    assert_eq!(countdown.draw().unwrap().text, "(-100:00:00)");
    countdown.set(0);
    assert_eq!(countdown.draw().unwrap().text, "(-00:00)");
}

#[test]
fn countdown_place_in_a_scrolled_roster() {
    let layout = layout_of(100, 8, 0);
    assert_eq!(layout.roster_height, 4);
    let mut countdown = Countdown::new();
    // In sight, not scrolled.
    countdown.place_at(&layout, 5, 0, 3);
    assert_eq!(countdown.position, Some(Position { line: 6, col: 9 }));
    // Below the rows.
    countdown.place_at(&layout, 5, 0, 4);
    assert_eq!(countdown.position, Some(Position { line: 7, col: 7 }));
    countdown.place_at(&layout, 5, 0, 100000);
    assert_eq!(countdown.position, Some(Position { line: 7, col: 7 }));
    // Scrolled: hidden behind the upper mark.
    countdown.place_at(&layout, 5, 2, 1);
    assert_eq!(countdown.position, Some(Position { line: 3, col: 7 }));
    countdown.place_at(&layout, 5, 2, 2);
    assert_eq!(countdown.position, Some(Position { line: 3, col: 7 }));
    // Scrolled, in sight.
    countdown.place_at(&layout, 5, 2, 4);
    assert_eq!(countdown.position, Some(Position { line: 5, col: 9 }));
    // A label wider than any terminal.
    countdown.place_at(&layout, usize::MAX, 0, 0);
    assert_eq!(countdown.position, Some(Position { line: 3, col: 65535 }));
}

#[test]
fn countdown_place_measures_the_label() {
    let layout = layout_of(100, 30, 0);
    let alarm = Alarm { time: 5, label: "日本語".to_string(), color_index: 0, exceeded: false };
    let mut countdown = Countdown::new();
    countdown.place(&layout, &alarm, 0, 1);
    assert_eq!(countdown.position, Some(Position { line: 4, col: 10 }));
}

#[test]
fn alarm_reset_and_duplicate() {
    let mut alarm = Alarm { time: 5, label: "x".to_string(), color_index: 3, exceeded: true };
    let copy = alarm.duplicate();
    alarm.reset();
    assert!(!alarm.exceeded);
    assert!(copy.exceeded);
    assert_eq!(copy.time, 5);
    assert_eq!(copy.label, "x");
    assert_eq!(copy.color_index, 3);
}

#[test]
fn draw_lists_the_alarms_in_sight() {
    let mut roster = roster_of(&["1/a", "2/b", "3/c"]);
    let layout = layout_of(100, 30, 0);
    let mut countdown = Countdown::new();
    let mut clock = clock_at(1);
    roster.check(&mut clock, &layout, &mut countdown, false);
    let frame = roster.draw(&layout);
    assert_eq!(frame.len(), 3);
    assert_eq!(frame[0].text, "a");
    assert_eq!(frame[0].style, Style::Exceeded(0));
    assert_eq!(frame[0].position, Position { line: 3, col: 1 });
    assert_eq!(frame[1].text, "b");
    assert_eq!(frame[1].style, Style::Pending(1));
    assert_eq!(frame[1].position, Position { line: 4, col: 1 });
    assert_eq!(frame[2].position, Position { line: 5, col: 1 });
}

#[test]
fn draw_marks_what_is_out_of_sight() {
    let mut roster = roster_of(&["1/a", "2/b", "3/c", "4/d", "5/e", "6/f"]);
    let layout = layout_of(100, 7, 0);
    assert_eq!(layout.roster_height, 3);
    let frame = roster.draw(&layout);
    let texts: Vec<&str> = frame.iter().map(|p| p.text.as_str()).collect();
    assert_eq!(texts, vec!["a", "b", "c", "[ v ] [Page Up/Down]"]);
    assert_eq!(frame[3].style, Style::Hint);
    assert_eq!(frame[3].position, Position { line: 6, col: 1 });

    roster.scroll_down(&layout);
    let frame = roster.draw(&layout);
    let texts: Vec<&str> = frame.iter().map(|p| p.text.as_str()).collect();
    assert_eq!(texts, vec!["[ ^ ]", "c", "d", "[ v ]"]);

    roster.scroll_down(&layout);
    roster.scroll_down(&layout);
    assert_eq!(roster.offset(), 3);
    let frame = roster.draw(&layout);
    let texts: Vec<&str> = frame.iter().map(|p| p.text.as_str()).collect();
    assert_eq!(texts, vec!["[ ^ ]", "e", "f"]);

    let tall = layout_of(100, 30, 0);
    let frame = roster.draw(&tall);
    assert_eq!(roster.offset(), 0);
    assert_eq!(frame.len(), 6);
}
