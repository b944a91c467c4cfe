//! The decisions of the event loop: what a signal, a key and the passing of
//! time make of the clock, the roster, the layout and the input line, and
//! what is to be drawn, rung and started in answer.
//!
//! The loop itself belongs to the caller. It waits, reads the keyboard, the
//! signals, the size of the terminal and the time, and hands each to the
//! timer; it writes what the timer hands back.

use crate::alarm::added;
use crate::alarm::longest;
use crate::alarm::panel_width;
use crate::alarm::rearmed;
use crate::alarm::travelled;
use crate::alarm::AlarmRoster;
use crate::alarm::AlarmView;
use crate::alarm::Countdown;
use crate::alarm::is_past;
use crate::alarm::last_index;
use crate::alarm::least;
use crate::alarm::excess;
use crate::buffer::without_last_word;
use crate::buffer::Buffer;
use crate::buffer::BufferView;
use crate::clock::Clock;
use crate::config::Config;
use crate::cradle::Cradle;
use crate::layout::Layout;
use crate::layout::Position;
use crate::alarm::checked_color;
use crate::alarm::checked_countdown;
use crate::alarm::countdown_text;
use crate::alarm::first_index;
use crate::alarm::is_due;
use crate::alarm::raised;
use crate::alarm::row_count;
use crate::alarm::last_row;
use crate::alarm::rows;
use crate::buffer::fitted;
use crate::buffer::line;
use crate::clock::face;
use crate::clock::DAY;
use crate::consts::MENUBAR;
use crate::consts::MENUBAR_INS;
use crate::consts::MENUBAR_PAUSED;
use crate::consts::MENUBAR_SHORT;
use crate::cradle::batch;
use crate::screen::Piece;
use crate::screen::PieceView;
use crate::screen::Style;
use crate::text::push_text;
use vstd::string::StringSliceAdditionalSpecFns;
use vstd::prelude::*;

verus! {

/// A notice from the system.
#[derive(Clone, Copy, Debug, PartialEq, Eq, Structural)]
pub enum Signal {
    /// The program is asked to stop until it is told to go on.
    Suspend,
    /// The program goes on after it was stopped.
    Continue,
    /// The size of the terminal has changed.
    Resize,
    /// The program is asked to end.
    Terminate,
    /// The clock is to be reset.
    Reset,
    /// The clock is to be paused, or to go on.
    Toggle,
}

/// A key of the keyboard.
#[derive(Clone, Copy, Debug, PartialEq, Eq, Structural)]
pub enum Key {
    Char(char),
    Ctrl(char),
    Esc,
    Backspace,
    Up,
    Down,
    PageUp,
    PageDown,
    /// Any key that means nothing here.
    Other,
}

/// What the loop is to do after a signal or a key.
#[derive(Clone, Copy, Debug, PartialEq, Eq, Structural)]
pub enum Action {
    /// Go on with the loop.
    Proceed,
    /// Give the terminal back and stop the program until it is told to go on.
    Suspend,
    /// Take the terminal again.
    Resume,
    /// Leave the loop.
    Exit,
}

/// All that the loop keeps between two rounds.
pub struct Timer {
    pub quit: bool,
    pub commands: Cradle,
    pub roster: AlarmRoster,
    pub layout: Layout,
    pub clock: Clock,
    pub countdown: Countdown,
    pub buffer: Buffer,
    pub force_redraw: bool,
}

/// The state of a timer as plain values.
pub struct TimerView {
    pub quit: bool,
    pub commands: Seq<Seq<Seq<char>>>,
    pub children: Seq<u32>,
    pub list: Seq<AlarmView>,
    pub offset: usize,
    pub hinted: bool,
    pub layout: Layout,
    pub clock: Clock,
    pub countdown: Countdown,
    pub buffer: BufferView,
    pub force_redraw: bool,
}

impl View for Timer {
    type V = TimerView;

    open spec fn view(&self) -> TimerView {
        TimerView {
            quit: self.quit,
            commands: self.commands.commands(),
            children: self.commands.children(),
            list: self.roster@,
            offset: self.roster.scroll_offset(),
            hinted: self.roster.hinted(),
            layout: self.layout,
            clock: self.clock,
            countdown: self.countdown,
            buffer: self.buffer@,
            force_redraw: self.force_redraw,
        }
    }
}

/// The layout with a new width of the roster.
pub open spec fn with_roster_width(layout: Layout, width: u16) -> Layout {
    if layout.roster_width != width {
        Layout { roster_width: width, force_recalc: true, ..layout }
    } else {
        layout
    }
}

/// The layout that asks for a new computation.
pub open spec fn recalc(layout: Layout) -> Layout {
    Layout { force_recalc: true, ..layout }
}

/// The state after a reset of the clock at `now`: the clock starts anew,
/// every alarm waits again, and all is computed and drawn anew.
pub open spec fn after_reset(t: TimerView, now: u64) -> TimerView {
    TimerView {
        clock: t.clock.after_reset(now),
        list: rearmed(t.list),
        layout: recalc(t.layout),
        force_redraw: true,
        ..t
    }
}

/// The state after `signal` arrived at `now`.
pub open spec fn after_signal(t: TimerView, signal: Signal, now: u64) -> TimerView {
    match signal {
        Signal::Suspend => t,
        Signal::Continue => TimerView { force_redraw: true, ..t },
        Signal::Resize => TimerView { layout: recalc(t.layout), ..t },
        Signal::Terminate => t,
        Signal::Reset => after_reset(t, now),
        Signal::Toggle => TimerView { clock: t.clock.after_toggle(now), force_redraw: true, ..t },
    }
}

/// What the loop is to do after `signal`.
pub open spec fn signal_action(signal: Signal) -> Action {
    match signal {
        Signal::Suspend => Action::Suspend,
        Signal::Continue => Action::Resume,
        Signal::Terminate => Action::Exit,
        _ => Action::Proceed,
    }
}

/// The input line hidden, and all drawn anew, where nothing is typed any
/// more.
pub open spec fn hidden_if_empty(t: TimerView, buffer: BufferView) -> TimerView {
    if buffer.content.len() == 0 {
        TimerView { buffer: BufferView { visible: false, ..buffer }, force_redraw: true, ..t }
    } else {
        TimerView { buffer, ..t }
    }
}

/// The state after what was typed was handed in as an alarm. Nothing
/// happens while nothing is typed. An alarm that is taken changes the width
/// of the roster; one that is refused leaves its message. Either way the
/// input is wiped and the line hidden.
pub open spec fn after_enter(t: TimerView) -> TimerView {
    if t.buffer.content.len() == 0 {
        t
    } else {
        match added(t.list, t.buffer.content) {
            Ok(list) => TimerView {
                list,
                layout: with_roster_width(t.layout, panel_width(longest(list), list.len())),
                buffer: BufferView { content: Seq::empty(), visible: false, ..t.buffer },
                force_redraw: true,
                ..t
            },
            Err(e) => TimerView {
                buffer: BufferView {
                    content: Seq::empty(),
                    message: Some(e.text()),
                    visible: false,
                },
                force_redraw: true,
                ..t
            },
        }
    }
}

/// The state after the last alarm was deleted. Nothing happens where there
/// is none.
pub open spec fn after_delete(t: TimerView) -> TimerView {
    if t.list.len() == 0 {
        t
    } else {
        let list = t.list.drop_last();
        TimerView {
            list,
            layout: with_roster_width(t.layout, panel_width(longest(list), list.len())),
            countdown: Countdown { value: 0, position: None },
            force_redraw: true,
            ..t
        }
    }
}

/// The state after the clock was set by `shift` seconds. Going back marks
/// every alarm by its time alone and gives the clock the colour of the latest
/// alarm whose time has come.
pub open spec fn after_shift(t: TimerView, shift: i32) -> TimerView {
    let clock = t.clock.after_shift(shift);
    if shift < 0 {
        let last = last_index(t.list, is_past(clock.elapsed));
        TimerView {
            clock: Clock {
                color_index: if last >= 0 {
                    Some(t.list[last].color_index)
                } else {
                    None
                },
                ..clock
            },
            list: travelled(t.list, clock.elapsed),
            layout: recalc(t.layout),
            force_redraw: true,
            ..t
        }
    } else {
        TimerView { clock, layout: recalc(t.layout), force_redraw: true, ..t }
    }
}

/// The state after a character was typed outside the input line: a digit
/// opens the line and begins the input, a colon joins an input that has
/// begun, and any other character is passed over.
pub open spec fn after_plain_char(t: TimerView, c: char) -> TimerView {
    if '0' <= c && c <= '9' {
        TimerView {
            buffer: BufferView {
                content: t.buffer.content.push(c),
                message: None,
                visible: true,
            },
            force_redraw: true,
            ..t
        }
    } else if t.buffer.content.len() > 0 && c == ':' {
        TimerView {
            buffer: BufferView { content: t.buffer.content.push(':'), message: None, ..t.buffer },
            ..t
        }
    } else {
        t
    }
}

/// The state after `key` was pressed at `now`.
pub open spec fn after_key(t: TimerView, key: Key, now: u64) -> TimerView {
    match key {
        Key::Char('\n') => after_enter(t),
        Key::Esc | Key::Ctrl('u') => TimerView {
            buffer: BufferView { content: Seq::empty(), message: None, visible: false },
            force_redraw: true,
            ..t
        },
        Key::Ctrl('w') => hidden_if_empty(
            t,
            BufferView {
                content: without_last_word(t.buffer.content),
                message: None,
                ..t.buffer
            },
        ),
        Key::Backspace => hidden_if_empty(
            t,
            BufferView {
                content: if t.buffer.content.len() > 0 {
                    t.buffer.content.drop_last()
                } else {
                    t.buffer.content
                },
                message: None,
                ..t.buffer
            },
        ),
        Key::Up => if t.clock.paused {
            after_shift(t, 10i32)
        } else {
            t
        },
        Key::Down => if t.clock.paused {
            after_shift(t, (-10) as i32)
        } else {
            t
        },
        Key::PageUp => TimerView {
            offset: least(
                excess(t.list.len(), t.layout.roster_height) as int,
                if t.offset == 0 {
                    0
                } else {
                    t.offset - 1
                },
            ) as usize,
            force_redraw: true,
            ..t
        },
        Key::PageDown => TimerView {
            offset: least(excess(t.list.len(), t.layout.roster_height) as int, t.offset + 1) as usize,
            force_redraw: true,
            ..t
        },
        Key::Char(c) => if t.buffer.visible {
            TimerView {
                buffer: BufferView { content: t.buffer.content.push(c), message: None, ..t.buffer },
                ..t
            }
        } else if c == 'r' {
            after_reset(t, now)
        } else if c == ' ' {
            TimerView { clock: t.clock.after_toggle(now), force_redraw: true, ..t }
        } else if c == 'c' {
            TimerView { clock: Clock { color_index: None, ..t.clock }, force_redraw: true, ..t }
        } else if c == 'd' {
            after_delete(t)
        } else if c == 'q' {
            t
        } else {
            after_plain_char(t, c)
        },
        Key::Ctrl('r') => TimerView { force_redraw: true, ..t },
        Key::Ctrl('z') => TimerView { force_redraw: true, ..t },
        _ => t,
    }
}

/// What the loop is to do after `key`.
pub open spec fn key_action(t: TimerView, key: Key) -> Action {
    match key {
        Key::Char('\n') => Action::Proceed,
        Key::Char(c) => if !t.buffer.visible && c == 'q' {
            Action::Exit
        } else {
            Action::Proceed
        },
        Key::Ctrl('c') => Action::Exit,
        Key::Ctrl('z') => Action::Suspend,
        _ => Action::Proceed,
    }
}

impl Timer {
    /// The parts are well formed.
    pub open spec fn wf(&self) -> bool {
        &&& self.commands.wf()
        &&& self.roster.wf()
        &&& self.layout.wf()
        &&& self.clock.wf()
    }

    /// A timer for the alarms of `alarm_roster` whose clock starts at `now`.
    pub fn new(config: Config, alarm_roster: AlarmRoster, now: u64) -> (timer: Timer)
        requires
            config.font.wf(),
            config.commands.wf(),
            alarm_roster.wf(),
        ensures
            timer.wf(),
            timer.quit == config.quit,
            timer.commands == config.commands,
            timer.roster == alarm_roster,
            timer.clock == Clock::new_spec(config.font, now),
            timer.countdown == (Countdown { value: 0, position: None }),
            timer.buffer@ == (BufferView { content: Seq::empty(), message: None, visible: false }),
            timer.force_redraw,
            timer.layout.wf(),
            timer.layout.force_recalc,
            timer.layout.roster_width == panel_width(longest(alarm_roster@), alarm_roster@.len()),
    {
        let mut layout = Layout::new();
        layout.set_roster_width(alarm_roster.width());
        let clock = Clock::new(&config, now);
        Timer {
            quit: config.quit,
            commands: config.commands,
            roster: alarm_roster,
            layout,
            clock,
            countdown: Countdown::new(),
            buffer: Buffer::new(),
            force_redraw: true,
        }
    }

    /// Takes a signal that arrived at `now`, and tells what the loop is to
    /// do.
    pub fn on_signal(&mut self, signal: Signal, now: u64) -> (action: Action)
        requires
            old(self).wf(),
        ensures
            final(self).wf(),
            final(self)@ == after_signal(old(self)@, signal, now),
            action == signal_action(signal),
    {
        match signal {
            Signal::Suspend => Action::Suspend,
            Signal::Continue => {
                self.force_redraw = true;
                Action::Resume
            },
            Signal::Resize => {
                self.layout.schedule_recalc();
                Action::Proceed
            },
            Signal::Terminate => Action::Exit,
            Signal::Reset => {
                self.reset(now);
                Action::Proceed
            },
            Signal::Toggle => {
                self.clock.toggle(now);
                self.force_redraw = true;
                Action::Proceed
            },
        }
    }

    /// Starts the clock anew at `now` and makes every alarm wait again.
    pub fn reset(&mut self, now: u64)
        requires
            old(self).wf(),
        ensures
            final(self).wf(),
            final(self)@ == after_reset(old(self)@, now),
    {
        self.clock.reset(now);
        self.roster.reset_all();
        self.layout.schedule_recalc();
        self.force_redraw = true;
    }

    /// Sets the clock by `shift` seconds.
    pub fn shift(&mut self, shift: i32)
        requires
            old(self).wf(),
        ensures
            final(self).wf(),
            final(self)@ == after_shift(old(self)@, shift),
    {
        self.clock.shift(shift);
        if shift < 0 {
            self.roster.time_travel(&mut self.clock);
        }
        self.layout.schedule_recalc();
        self.force_redraw = true;
    }

    /// Hands what was typed to the roster as an alarm.
    pub fn enter(&mut self)
        requires
            old(self).wf(),
        ensures
            final(self).wf(),
            final(self)@ == after_enter(old(self)@),
    {
        if !self.buffer.is_empty() {
            match self.roster.add(self.buffer.read()) {
                Err(e) => {
                    self.buffer.message(e.message());
                },
                Ok(()) => {
                    self.layout.set_roster_width(self.roster.width());
                },
            }
            self.buffer.clear();
            self.buffer.visible = false;
            self.force_redraw = true;
        }
    }

    /// Deletes the last alarm.
    pub fn delete(&mut self)
        requires
            old(self).wf(),
        ensures
            final(self).wf(),
            final(self)@ == after_delete(old(self)@),
    {
        if self.roster.pop().is_some() {
            self.layout.set_roster_width(self.roster.width());
            self.countdown.reset();
            self.force_redraw = true;
        }
    }

    /// Hides the input line, and asks for a new drawing, where nothing is
    /// typed any more.
    fn hide_if_empty(&mut self)
        ensures
            final(self)@ == hidden_if_empty(old(self)@, old(self)@.buffer),
            final(self).commands == old(self).commands,
            final(self).roster == old(self).roster,
            final(self).layout == old(self).layout,
            final(self).clock == old(self).clock,
    {
        if self.buffer.is_empty() {
            self.buffer.visible = false;
            self.force_redraw = true;
        }
    }

    /// Takes a key that was pressed at `now`, and tells what the loop is to
    /// do.
    pub fn on_key(&mut self, key: Key, now: u64) -> (action: Action)
        requires
            old(self).wf(),
        ensures
            final(self).wf(),
            final(self)@ == after_key(old(self)@, key, now),
            action == key_action(old(self)@, key),
    {
        match key {
            Key::Char('\n') => {
                self.enter();
                Action::Proceed
            },
            Key::Esc | Key::Ctrl('u') => {
                self.buffer.reset();
                self.buffer.visible = false;
                self.force_redraw = true;
                Action::Proceed
            },
            Key::Ctrl('w') => {
                self.buffer.strip_word();
                self.hide_if_empty();
                Action::Proceed
            },
            Key::Backspace => {
                self.buffer.strip_char();
                self.hide_if_empty();
                Action::Proceed
            },
            Key::Up => {
                if self.clock.paused {
                    self.shift(10);
                }
                Action::Proceed
            },
            Key::Down => {
                if self.clock.paused {
                    self.shift(-10);
                }
                Action::Proceed
            },
            Key::PageUp => {
                self.roster.scroll_up(&self.layout);
                self.force_redraw = true;
                Action::Proceed
            },
            Key::PageDown => {
                self.roster.scroll_down(&self.layout);
                self.force_redraw = true;
                Action::Proceed
            },
            Key::Char(c) => {
                if self.buffer.visible {
                    self.buffer.push(c);
                    Action::Proceed
                } else if c == 'r' {
                    self.reset(now);
                    Action::Proceed
                } else if c == ' ' {
                    self.clock.toggle(now);
                    self.force_redraw = true;
                    Action::Proceed
                } else if c == 'c' {
                    self.clock.color_index = None;
                    self.force_redraw = true;
                    Action::Proceed
                } else if c == 'd' {
                    self.delete();
                    Action::Proceed
                } else if c == 'q' {
                    Action::Exit
                } else {
                    if c >= '0' && c <= '9' {
                        self.buffer.push(c);
                        self.buffer.visible = true;
                        self.force_redraw = true;
                    } else if !self.buffer.is_empty() && c == ':' {
                        self.buffer.push(':');
                    }
                    Action::Proceed
                }
            },
            Key::Ctrl('c') => Action::Exit,
            Key::Ctrl('r') => {
                self.force_redraw = true;
                Action::Proceed
            },
            Key::Ctrl('z') => {
                self.force_redraw = true;
                Action::Suspend
            },
            _ => Action::Proceed,
        }
    }
}


/// What a round of the loop hands back: whether to ring the bell, the
/// commands to start, whether to leave the loop, and what to draw.
pub struct Frame {
    pub bell: bool,
    pub calls: Vec<Vec<String>>,
    pub exit: bool,
    pub pieces: Vec<Piece>,
}

/// A frame with its texts as sequences of characters.
pub struct FrameView {
    pub bell: bool,
    pub calls: Seq<Seq<Seq<char>>>,
    pub exit: bool,
    pub pieces: Seq<PieceView>,
}

impl View for Frame {
    type V = FrameView;

    open spec fn view(&self) -> FrameView {
        FrameView {
            bell: self.bell,
            calls: self.calls.deep_view(),
            exit: self.exit,
            pieces: self.pieces.deep_view(),
        }
    }
}

/// The seconds that the clock is to show at `now`: those since its start,
/// or those it shows while it is paused.
pub open spec fn reading(clock: Clock, now: u64) -> nat {
    if clock.paused {
        clock.elapsed as nat
    } else {
        clock.seconds_at(now)
    }
}

/// Whether there is anything to do at `now`: the clock is to show another
/// second, or a new drawing is asked for.
pub open spec fn is_due_at(t: TimerView, now: u64) -> bool {
    reading(t.clock, now) != t.clock.elapsed || t.force_redraw
}

/// The state with the clock brought to `now`. At the end of a day the clock
/// begins a new one, every alarm waits again and the layout is computed
/// anew.
pub open spec fn advanced(t: TimerView, now: u64) -> TimerView {
    let secs = reading(t.clock, now);
    if secs < DAY {
        TimerView { clock: Clock { elapsed: secs as u32, ..t.clock }, ..t }
    } else {
        TimerView {
            clock: t.clock.after_next_day(now),
            list: rearmed(t.list),
            layout: recalc(t.layout),
            ..t
        }
    }
}

/// The state with the layout brought up to date for a terminal of the given
/// size. A layout that was computed anew asks for a new drawing. The clock
/// reaching one hour asks for a new computation.
pub open spec fn arranged(t: TimerView, width: u16, height: u16) -> TimerView {
    let force = t.clock.elapsed == 3600;
    TimerView {
        layout: t.layout.updated(t.clock, width, height, force),
        force_redraw: t.force_redraw || t.layout.force_recalc || force,
        ..t
    }
}

/// Whether an alarm is raised and heard: one is due, and the clock runs.
pub open spec fn rings(t: TimerView) -> bool {
    first_index(t.list, is_due(t.clock.elapsed)) < t.list.len() && !t.clock.paused
}

/// The state after the alarms that are due were raised. An alarm that is
/// heard asks for a new drawing.
pub open spec fn checked(t: TimerView) -> TimerView {
    TimerView {
        list: raised(t.list, t.clock.elapsed),
        clock: Clock { color_index: checked_color(t.list, t.clock), ..t.clock },
        countdown: checked_countdown(
            t.list,
            t.clock.elapsed,
            t.layout,
            t.countdown,
            t.offset,
            t.force_redraw,
        ),
        force_redraw: t.force_redraw || rings(t),
        ..t
    }
}

/// The commands to start for the first alarm that is raised: all of them,
/// filled in, unless a process that was started before may still run.
pub open spec fn started(t: TimerView) -> Seq<Seq<Seq<char>>> {
    let alarm = t.list[first_index(t.list, is_due(t.clock.elapsed))];
    if rings(t) && t.children.len() == 0 {
        batch(t.commands, alarm.time, alarm.label)
    } else {
        Seq::empty()
    }
}

/// Whether the loop ends: an alarm is heard, the program is to end with the
/// last alarm, and no alarm is left to wait for.
pub open spec fn ends(t: TimerView) -> bool {
    rings(t) && t.quit && forall|i: int|
        0 <= i < t.list.len() ==> (#[trigger] raised(t.list, t.clock.elapsed)[i]).exceeded
}

/// Whether a terminal of `width` columns has a column for each byte of
/// `text`.
pub open spec fn holds(width: u16, text: &str) -> bool {
    text.spec_bytes().len() <= width
}

/// The menu bar: that of a paused clock, that of the input line, the long
/// one, or the short one, whichever applies and fits; a blank where none
/// fits.
pub open spec fn menu_text(paused: bool, typing: bool, width: u16) -> Seq<char> {
    if paused && holds(width, MENUBAR_PAUSED) {
        MENUBAR_PAUSED@
    } else if typing && holds(width, MENUBAR_INS) {
        MENUBAR_INS@
    } else if !typing && holds(width, MENUBAR) {
        MENUBAR@
    } else if !typing && holds(width, MENUBAR_SHORT) {
        MENUBAR_SHORT@
    } else {
        seq![' ']
    }
}

/// The state after the roster was drawn: its scrolling is brought back to
/// what it has beyond its rows, and the hint on scrolling counts as shown
/// once the row that holds it was drawn.
pub open spec fn roster_drawn(t: TimerView) -> TimerView {
    let offset = least(t.offset as int, excess(t.list.len(), t.layout.roster_height) as int) as usize;
    TimerView {
        offset,
        hinted: t.hinted || row_count(t.list.len(), offset, t.layout.roster_height) > last_row(
            offset,
            t.layout.roster_height,
        ),
        ..t
    }
}

/// The state after the input line was drawn: what was typed has lost what
/// does not fit into the terminal, unless a message stood in its place.
pub open spec fn buffer_drawn(t: TimerView) -> TimerView {
    TimerView {
        buffer: BufferView {
            content: if t.buffer.message is None {
                fitted(t.buffer.content, t.layout.width)
            } else {
                t.buffer.content
            },
            ..t.buffer
        },
        ..t
    }
}

/// What a new drawing of everything but the clock consists of: the menu
/// bar, the rows of the roster, and the input line.
pub open spec fn background(t: TimerView) -> Seq<PieceView> {
    seq![
        PieceView {
            position: Position { line: 1, col: 1 },
            style: Style::Menu,
            text: menu_text(t.clock.paused, t.buffer.visible, t.layout.width),
        },
    ] + rows(t.list, roster_drawn(t).offset, t.layout, t.hinted) + seq![line(t.buffer, t.layout)]
}

/// The countdown as it is drawn: only while it counts and has a place.
pub open spec fn countdown_piece(countdown: Countdown) -> Seq<PieceView> {
    if countdown.value > 0 && countdown.position is Some {
        seq![
            PieceView {
                position: countdown.position->0,
                style: Style::Countdown,
                text: countdown_text(countdown.value),
            },
        ]
    } else {
        Seq::empty()
    }
}

/// What is drawn in a round: the background if a new drawing is asked for,
/// the clock, and the countdown.
pub open spec fn picture(t: TimerView) -> Seq<PieceView> {
    (if t.force_redraw {
        background(t)
    } else {
        Seq::empty()
    }) + face(t.clock, t.layout, t.force_redraw) + countdown_piece(t.countdown)
}

/// The state after a round was drawn. No new drawing is asked for any more.
pub open spec fn drawn(t: TimerView) -> TimerView {
    let after = if t.force_redraw {
        buffer_drawn(roster_drawn(t))
    } else {
        t
    };
    TimerView { force_redraw: false, ..after }
}

/// The input line again, which shows the cursor, while the line is open.
pub open spec fn cursor(t: TimerView) -> Seq<PieceView> {
    if t.buffer.visible {
        seq![line(t.buffer, t.layout)]
    } else {
        Seq::empty()
    }
}

/// The state after the cursor was shown.
pub open spec fn cursor_drawn(t: TimerView) -> TimerView {
    if t.buffer.visible {
        buffer_drawn(t)
    } else {
        t
    }
}

/// The state after the work of a round that is due, before anything is
/// drawn.
pub open spec fn prepared(t: TimerView, now: u64, width: u16, height: u16) -> TimerView {
    checked(arranged(advanced(t, now), width, height))
}

/// The state before the alarms are looked at in a round that is due.
pub open spec fn settled(t: TimerView, now: u64, width: u16, height: u16) -> TimerView {
    arranged(advanced(t, now), width, height)
}

/// The state after a round of the loop at `now`, in a terminal of the given
/// size.
pub open spec fn ticked(t: TimerView, now: u64, width: u16, height: u16) -> TimerView {
    if !is_due_at(t, now) {
        cursor_drawn(t)
    } else if ends(settled(t, now, width, height)) {
        prepared(t, now, width, height)
    } else {
        cursor_drawn(drawn(prepared(t, now, width, height)))
    }
}

/// What a round of the loop at `now` hands back.
pub open spec fn frame(t: TimerView, now: u64, width: u16, height: u16) -> FrameView {
    if !is_due_at(t, now) {
        FrameView { bell: false, calls: Seq::empty(), exit: false, pieces: cursor(t) }
    } else {
        let before = settled(t, now, width, height);
        let after = prepared(t, now, width, height);
        FrameView {
            bell: rings(before),
            calls: started(before),
            exit: ends(before),
            pieces: if ends(before) {
                Seq::empty()
            } else {
                picture(after) + cursor(drawn(after))
            },
        }
    }
}


impl Timer {
    /// Whether there is anything to do at `now`.
    pub fn due(&self, now: u64) -> (r: bool)
        requires
            self.wf(),
        ensures
            r == is_due_at(self@, now),
    {
        let secs: u64 = if self.clock.paused {
            self.clock.elapsed as u64
        } else {
            self.clock.seconds_since_start(now)
        };
        secs != self.clock.elapsed as u64 || self.force_redraw
    }

    /// Brings the clock to `now`, and begins a new day where one is over.
    pub fn advance(&mut self, now: u64)
        requires
            old(self).wf(),
        ensures
            final(self).wf(),
            final(self)@ == advanced(old(self)@, now),
    {
        let secs: u64 = if self.clock.paused {
            self.clock.elapsed as u64
        } else {
            self.clock.seconds_since_start(now)
        };
        if secs < DAY as u64 {
            self.clock.elapsed = secs as u32;
        } else {
            self.clock.next_day(now);
            self.roster.reset_all();
            self.layout.schedule_recalc();
        }
    }

    /// Brings the layout up to date for a terminal of the given size.
    pub fn arrange(&mut self, width: u16, height: u16)
        requires
            old(self).wf(),
        ensures
            final(self).wf(),
            final(self)@ == arranged(old(self)@, width, height),
    {
        let force = self.clock.elapsed == 3600;
        if self.layout.update(&self.clock, width, height, force) {
            self.force_redraw = true;
        }
    }

    /// Raises the alarms that are due. Tells whether to ring the bell, which
    /// commands to start, and whether to leave the loop.
    pub fn raise(&mut self) -> (r: (bool, Vec<Vec<String>>, bool))
        requires
            old(self).wf(),
        ensures
            final(self).wf(),
            final(self)@ == checked(old(self)@),
            r.0 == rings(old(self)@),
            r.1.deep_view() == started(old(self)@),
            r.2 == ends(old(self)@),
    {
        let fired = self.roster.check(
            &mut self.clock,
            &self.layout,
            &mut self.countdown,
            self.force_redraw,
        );
        let mut calls: Vec<Vec<String>> = Vec::new();
        assert(calls.deep_view() == Seq::<Seq<Seq<char>>>::empty());
        match fired {
            Some(alarm) => {
                if !self.clock.paused {
                    self.force_redraw = true;
                    calls = self.commands.run_all(alarm.time, &alarm.label);
                    let exit = self.quit && self.roster.idle();
                    (true, calls, exit)
                } else {
                    (false, calls, false)
                }
            },
            None => (false, calls, false),
        }
    }

    /// The menu bar that applies and fits.
    pub fn menu(&self) -> (text: &'static str)
        ensures
            text@ == menu_text(self.clock.paused, self.buffer.visible, self.layout.width),
    {
        if self.clock.paused && self.layout.can_hold(MENUBAR_PAUSED) {
            MENUBAR_PAUSED
        } else if self.buffer.visible && self.layout.can_hold(MENUBAR_INS) {
            MENUBAR_INS
        } else if !self.buffer.visible && self.layout.can_hold(MENUBAR) {
            MENUBAR
        } else if !self.buffer.visible && self.layout.can_hold(MENUBAR_SHORT) {
            MENUBAR_SHORT
        } else {
            proof {
                reveal_strlit(" ");
                assert(" "@ == seq![' ']);
            }
            " "
        }
    }

    /// Appends the pieces of `more` to `pieces`.
    fn extend(pieces: &mut Vec<Piece>, more: Vec<Piece>)
        ensures
            final(pieces).deep_view() == old(pieces).deep_view() + more.deep_view(),
    {
        let mut more = more;
        let ghost before = pieces.deep_view();
        let ghost added = more.deep_view();
        pieces.append(&mut more);
        assert(pieces.deep_view() == before + added);
    }

    /// Draws what a round is to draw.
    pub fn render(&mut self) -> (pieces: Vec<Piece>)
        requires
            old(self).wf(),
        ensures
            final(self).wf(),
            final(self)@ == drawn(old(self)@),
            pieces.deep_view() == picture(old(self)@),
    {
        let mut pieces: Vec<Piece> = Vec::new();
        assert(pieces.deep_view() == Seq::<PieceView>::empty());
        if self.force_redraw {
            let mut text = String::new();
            push_text(&mut text, self.menu());
            let bar = Piece { position: Position { line: 1, col: 1 }, style: Style::Menu, text };
            let ghost bar_view = bar@;
            pieces.push(bar);
            assert(pieces.deep_view() == seq![bar_view]);
            let rows = self.roster.draw(&self.layout);
            Timer::extend(&mut pieces, rows);
            let input = self.buffer.draw(&self.layout);
            let ghost input_view = input@;
            let ghost before = pieces.deep_view();
            pieces.push(input);
            assert(pieces.deep_view() == before + seq![input_view]);
            assert(pieces.deep_view() == background(old(self)@));
        }
        let face = self.clock.draw(&self.layout, self.force_redraw);
        Timer::extend(&mut pieces, face);
        if self.countdown.value > 0 {
            match self.countdown.draw() {
                Some(piece) => {
                    let ghost before = pieces.deep_view();
                    let ghost view = piece@;
                    pieces.push(piece);
                    assert(pieces.deep_view() == before + seq![view]);
                },
                None => {},
            }
        }
        assert(pieces.deep_view() == picture(old(self)@));
        self.force_redraw = false;
        pieces
    }

    /// Draws the input line again while it is open.
    pub fn show_cursor(&mut self, pieces: &mut Vec<Piece>)
        requires
            old(self).wf(),
        ensures
            final(self).wf(),
            final(self)@ == cursor_drawn(old(self)@),
            final(pieces).deep_view() == old(pieces).deep_view() + cursor(old(self)@),
    {
        if self.buffer.visible {
            let input = self.buffer.draw(&self.layout);
            let ghost before = pieces.deep_view();
            let ghost view = input@;
            pieces.push(input);
            assert(pieces.deep_view() == before + seq![view]);
        } else {
            assert(pieces.deep_view() == old(pieces).deep_view() + Seq::<PieceView>::empty());
        }
    }

    /// A round of the loop at `now`, in a terminal of the given size.
    ///
    /// When the clock is to show another second, or a new drawing is asked
    /// for: brings the clock to `now`, brings the layout up to date, raises
    /// the alarms that are due, and draws. The input line is drawn in every
    /// round while it is open. The commands of the frame are for the caller
    /// to start; before a round that is due the caller asks the processes it
    /// started whether they have ended, and tells the cradle.
    pub fn tick(&mut self, now: u64, width: u16, height: u16) -> (out: Frame)
        requires
            old(self).wf(),
        ensures
            final(self).wf(),
            final(self)@ == ticked(old(self)@, now, width, height),
            out@ == frame(old(self)@, now, width, height),
    {
        let mut out = Frame { bell: false, calls: Vec::new(), exit: false, pieces: Vec::new() };
        assert(out.calls.deep_view() == Seq::<Seq<Seq<char>>>::empty());
        assert(out.pieces.deep_view() == Seq::<PieceView>::empty());
        if self.due(now) {
            self.advance(now);
            self.arrange(width, height);
            let (bell, calls, exit) = self.raise();
            out.bell = bell;
            out.calls = calls;
            out.exit = exit;
            if exit {
                return out;
            }
            out.pieces = self.render();
        }
        let ghost before = out.pieces.deep_view();
        self.show_cursor(&mut out.pieces);
        assert(Seq::<PieceView>::empty() + cursor(old(self)@) == cursor(old(self)@));
        out
    }
}

} // verus!
