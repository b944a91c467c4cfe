//! The clock: the seconds and days that have passed, and how pausing,
//! shifting and the end of a day change them.
//!
//! Instants are counts of nanoseconds on a timeline that only moves forward.
//! The caller reads its monotonic clock and hands the reading in.

pub mod font;

use crate::clock::font::Font;
use crate::config::Config;
use crate::layout::Layout;
use crate::layout::Position;
use crate::screen::Piece;
use crate::screen::PieceView;
use crate::screen::Style;
use crate::text::chars_of;
use crate::text::decimal;
use crate::text::padded;
use crate::text::push_char;
use crate::text::push_decimal;
use crate::text::push_text;
use vstd::prelude::*;

verus! {

/// The seconds of a day.
pub const DAY: u32 = 86_400;

/// The nanoseconds of a second.
pub const SECOND: u64 = 1_000_000_000;

/// The nanoseconds of a day.
pub const DAY_NANOS: u64 = 86_400_000_000_000;

/// The farthest that the start of the clock may lie from the origin of the
/// timeline, on either side.
pub const START_LIMIT: i128 = 0x1_0000_0000_0000_0000;

/// What a paused clock remembers, to find its start again when it goes on.
#[derive(Clone, Copy, Debug, PartialEq, Eq, Structural)]
pub enum Pause {
    /// The instant at which the clock was paused.
    Instant(u64),
    /// The seconds and days that the clock was set to while it was paused.
    Time(u32, u32),
    /// Nothing to remember: the clock was not paused.
    Unset,
}

/// The running time, in seconds and days since `start`.
#[derive(Clone, Copy, Debug)]
pub struct Clock {
    pub start: i128,
    pub elapsed: u32,
    pub days: u32,
    pub paused: bool,
    pub paused_at: Pause,
    pub color_index: Option<usize>,
    pub font: Font,
}

impl Clock {
    /// The seconds stay within a day, the start within reach of the timeline,
    /// and the font is one that a layout can place.
    pub open spec fn wf(&self) -> bool {
        &&& self.elapsed < DAY
        &&& -START_LIMIT <= self.start <= START_LIMIT
        &&& self.font.wf()
    }

    /// The columns that the digits and colons of the clock take.
    pub open spec fn width(&self) -> u16 {
        if self.elapsed >= 3600 {
            (self.font.width * 6 + 13) as u16
        } else {
            (self.font.width * 4 + 7) as u16
        }
    }

    /// The whole seconds from the start of the clock to `now`; none where
    /// `now` lies before the start.
    pub open spec fn seconds_at(&self, now: u64) -> nat {
        if now >= self.start {
            ((now - self.start) / (SECOND as int)) as nat
        } else {
            0
        }
    }

    /// The clock after a reset at `now`: no time has passed and no alarm
    /// colours it. A paused clock stays paused, from `now` on.
    pub open spec fn after_reset(self, now: u64) -> Clock {
        Clock {
            start: now as i128,
            elapsed: 0,
            days: 0,
            color_index: None,
            paused_at: if self.paused {
                Pause::Instant(now)
            } else {
                self.paused_at
            },
            ..self
        }
    }

    /// The clock paused at `now`.
    pub open spec fn after_pause(self, now: u64) -> Clock {
        Clock { paused_at: Pause::Instant(now), paused: true, ..self }
    }

    /// The clock going on at `now`. After a plain pause the start moves
    /// forward by the time the pause took, unless that leads out of reach; after a
    /// shift the start lies the shifted seconds before `now`.
    pub open spec fn after_unpause(self, now: u64) -> Clock {
        Clock {
            start: match self.paused_at {
                Pause::Instant(at) => {
                    let waited: int = if now >= at {
                        now - at
                    } else {
                        0
                    };
                    if self.start + waited <= START_LIMIT {
                        (self.start + waited) as i128
                    } else {
                        self.start
                    }
                },
                Pause::Time(secs, _) => (now - secs * SECOND) as i128,
                Pause::Unset => self.start,
            },
            paused_at: Pause::Unset,
            paused: false,
            ..self
        }
    }

    /// The clock paused if it ran, and running if it was paused.
    pub open spec fn after_toggle(self, now: u64) -> Clock {
        if self.paused {
            self.after_unpause(now)
        } else {
            self.after_pause(now)
        }
    }

    /// The clock set forward by `shift` seconds, or back where `shift` is
    /// negative. Going back below zero takes one day from the days, if there
    /// is one, and else stops at zero; going forward past the end of a day
    /// adds to the days.
    pub open spec fn after_shift(self, shift: i32) -> Clock {
        let back: int = if shift < 0 {
            -shift
        } else {
            0
        };
        let borrow = self.elapsed < back && self.days > 0;
        let base: int = if borrow {
            self.elapsed + DAY
        } else {
            self.elapsed as int
        };
        let days_before: int = if borrow {
            self.days - 1
        } else {
            self.days as int
        };
        let total: int = if shift < 0 {
            if base >= back {
                base - back
            } else {
                0
            }
        } else {
            base + shift
        };
        let days_after: int = days_before + total / (DAY as int);
        let days: u32 = if days_after > u32::MAX {
            u32::MAX
        } else {
            days_after as u32
        };
        let secs: u32 = (total % (DAY as int)) as u32;
        Clock { paused_at: Pause::Time(secs, days), elapsed: secs, days, ..self }
    }

    /// The clock at the end of a day: where a whole day has passed since the
    /// start, the start moves on by a day, the seconds begin again and the
    /// days count one more. Before that nothing changes.
    pub open spec fn after_next_day(self, now: u64) -> Clock {
        if self.start + DAY_NANOS <= now {
            Clock {
                start: (self.start + DAY_NANOS) as i128,
                elapsed: 0,
                days: if self.days == u32::MAX {
                    u32::MAX
                } else {
                    (self.days + 1) as u32
                },
                ..self
            }
        } else {
            self
        }
    }

    /// A clock with `font` that starts to run at `now`.
    pub open spec fn new_spec(font: Font, now: u64) -> Clock {
        Clock {
            start: now as i128,
            elapsed: 0,
            days: 0,
            paused: false,
            paused_at: Pause::Unset,
            color_index: None,
            font,
        }
    }

    /// A clock that starts to run at `now`, with the font of `config`.
    pub fn new(config: &Config, now: u64) -> (clock: Clock)
        requires
            config.font.wf(),
        ensures
            clock.wf(),
            clock == Clock::new_spec(config.font, now),
    {
        Clock {
            start: now as i128,
            elapsed: 0,
            days: 0,
            paused: false,
            paused_at: Pause::Unset,
            color_index: None,
            font: config.font,
        }
    }

    /// Starts the clock anew at `now`.
    pub fn reset(&mut self, now: u64)
        requires
            old(self).wf(),
        ensures
            final(self).wf(),
            *final(self) == old(self).after_reset(now),
    {
        self.start = now as i128;
        self.elapsed = 0;
        self.days = 0;
        self.color_index = None;
        if self.paused {
            self.pause(now);
        }
    }

    /// Pauses the clock at `now`.
    pub fn pause(&mut self, now: u64)
        ensures
            *final(self) == old(self).after_pause(now),
    {
        self.paused_at = Pause::Instant(now);
        self.paused = true;
    }

    /// Lets the clock go on at `now`.
    pub fn unpause(&mut self, now: u64)
        requires
            old(self).wf(),
        ensures
            final(self).wf(),
            *final(self) == old(self).after_unpause(now),
    {
        match self.paused_at {
            Pause::Instant(at) => {
                let waited: u64 = if now >= at {
                    now - at
                } else {
                    0
                };
                let start: i128 = self.start + waited as i128;
                if start <= START_LIMIT {
                    self.start = start;
                }
            },
            Pause::Time(secs, _days) => {
                let nanos: i128 = (secs as i128) * 1_000_000_000;
                self.start = now as i128 - nanos;
            },
            Pause::Unset => {},
        }
        self.paused_at = Pause::Unset;
        self.paused = false;
    }

    /// Pauses a running clock, and lets a paused one go on.
    pub fn toggle(&mut self, now: u64)
        requires
            old(self).wf(),
        ensures
            final(self).wf(),
            *final(self) == old(self).after_toggle(now),
    {
        if self.paused {
            self.unpause(now);
        } else {
            self.pause(now);
        }
    }

    /// Sets the clock forward or back by `shift` seconds.
    pub fn shift(&mut self, shift: i32)
        requires
            old(self).wf(),
        ensures
            final(self).wf(),
            *final(self) == old(self).after_shift(shift),
    {
        let mut base: u64 = self.elapsed as u64;
        let mut days: u64 = self.days as u64;
        let total: u64 = if shift < 0 {
            let back: u64 = (-(shift as i64)) as u64;
            if base < back && days > 0 {
                days -= 1;
                base += DAY as u64;
            }
            if base >= back {
                base - back
            } else {
                0
            }
        } else {
            base + shift as u64
        };
        days += total / (DAY as u64);
        let days: u32 = if days > 0xffff_ffff {
            0xffff_ffff
        } else {
            days as u32
        };
        let secs: u32 = (total % (DAY as u64)) as u32;

        self.paused_at = Pause::Time(secs, days);
        self.elapsed = secs;
        self.days = days;
    }

    /// The columns that the clock takes.
    pub fn get_width(&self) -> (w: u16)
        requires
            self.font.wf(),
        ensures
            w == self.width(),
            w >= 4 * self.font.width + 7,
            self.elapsed >= 3600 ==> w >= 6 * self.font.width + 13,
    {
        if self.elapsed >= 3600 {
            self.font.width * 6 + 3 + 10
        } else {
            self.font.width * 4 + 2 + 5
        }
    }

    /// Begins a new day, where the last one is over at `now`.
    pub fn next_day(&mut self, now: u64)
        requires
            old(self).wf(),
        ensures
            final(self).wf(),
            *final(self) == old(self).after_next_day(now),
    {
        let next: i128 = self.start + DAY_NANOS as i128;
        if next <= now as i128 {
            self.start = next;
            self.elapsed = 0;
            self.days = self.days.saturating_add(1);
        }
    }

    /// The whole seconds from the start of the clock to `now`.
    pub fn seconds_since_start(&self, now: u64) -> (secs: u64)
        requires
            self.wf(),
        ensures
            secs == self.seconds_at(now),
    {
        let now: i128 = now as i128;
        if now >= self.start {
            ((now - self.start) / (SECOND as i128)) as u64
        } else {
            0
        }
    }
}


/// Two digits of the clock at `at`: five rows, each with a row of the glyph
/// of the tens, a blank, and the same row of the glyph of the ones.
pub open spec fn digit_rows(font: Font, value: nat, at: Position, style: Style) -> Seq<PieceView> {
    Seq::new(
        5,
        |i: int|
            PieceView {
                position: Position { line: (at.line + i) as u16, col: at.col },
                style,
                text: font.digits[(value / 10) as int][i]@ + seq![' '] + font.digits[(value
                    % 10) as int][i]@,
            },
    )
}

/// A colon of the clock at `at`: its two dots, in the second and the fourth
/// row.
pub open spec fn colon_rows(font: Font, at: Position, style: Style) -> Seq<PieceView> {
    seq![
        PieceView {
            position: Position { line: (at.line + 1) as u16, col: at.col },
            style,
            text: seq![font.dots.0],
        },
        PieceView {
            position: Position { line: (at.line + 3) as u16, col: at.col },
            style,
            text: seq![font.dots.1],
        },
    ]
}

/// The text that counts the days, set to the right of eleven columns.
pub open spec fn days_text(days: u32) -> Seq<char> {
    padded(
        seq!['+', ' '] + decimal(days as nat) + (if days == 1 {
            seq![' ', 'D', 'A', 'Y']
        } else {
            seq![' ', 'D', 'A', 'Y', 'S']
        }),
        11,
        ' ',
    )
}

/// The parts of the clock that are to be drawn.
///
/// The seconds are drawn each time, the minutes once a minute, the hours and
/// the days once an hour, and all of them, with the colons, when
/// `force_redraw` asks for it. Hours show from one hour on, days from one day
/// on.
pub open spec fn face(clock: Clock, layout: Layout, force_redraw: bool) -> Seq<PieceView> {
    let style = Style::Clock { faint: clock.paused, color: clock.color_index };
    let hourly = force_redraw || clock.elapsed % 3600 == 0;
    let hours = if hourly && clock.elapsed >= 3600 {
        digit_rows(clock.font, (clock.elapsed / 3600) as nat, layout.clock_hr, style) + colon_rows(
            clock.font,
            layout.clock_colon1,
            style,
        )
    } else {
        Seq::empty()
    };
    let days = if hourly && clock.days > 0 {
        seq![PieceView { position: layout.clock_days, style, text: days_text(clock.days) }]
    } else {
        Seq::empty()
    };
    let minutes = if force_redraw || clock.elapsed % 60 == 0 {
        digit_rows(clock.font, ((clock.elapsed % 3600) / 60) as nat, layout.clock_min, style)
    } else {
        Seq::empty()
    };
    let colon = if force_redraw {
        colon_rows(clock.font, layout.clock_colon0, style)
    } else {
        Seq::empty()
    };
    hours + days + minutes + colon + digit_rows(
        clock.font,
        (clock.elapsed % 60) as nat,
        layout.clock_sec,
        style,
    )
}

impl Clock {
    /// The style of all parts of the clock.
    pub fn style(&self) -> (style: Style)
        ensures
            style == (Style::Clock { faint: self.paused, color: self.color_index }),
    {
        Style::Clock { faint: self.paused, color: self.color_index }
    }

    /// Appends two digits at `at` to `frame`.
    pub fn draw_digit_pair(&self, frame: &mut Vec<Piece>, value: u32, at: &Position)
        requires
            value < 100,
            at.line <= 0x7fff,
        ensures
            final(frame).deep_view() == old(frame).deep_view() + digit_rows(
                self.font,
                value as nat,
                *at,
                Style::Clock { faint: self.paused, color: self.color_index },
            ),
    {
        let style = self.style();
        let left = &self.font.digits[(value / 10) as usize];
        let right = &self.font.digits[(value % 10) as usize];
        let ghost rows = digit_rows(self.font, value as nat, *at, style);
        let mut i: usize = 0;
        assert(rows.take(0) == Seq::<PieceView>::empty());
        assert(frame.deep_view() == old(frame).deep_view() + rows.take(0));
        while i < 5
            invariant
                i <= 5,
                value < 100,
                at.line <= 0x7fff,
                style == (Style::Clock { faint: self.paused, color: self.color_index }),
                *left == self.font.digits[(value / 10) as int],
                *right == self.font.digits[(value % 10) as int],
                rows == digit_rows(self.font, value as nat, *at, style),
                frame.deep_view() == old(frame).deep_view() + rows.take(i as int),
            decreases 5 - i,
        {
            let ghost before = frame.deep_view();
            let mut text = String::new();
            push_text(&mut text, left[i]);
            push_char(&mut text, ' ');
            push_text(&mut text, right[i]);
            assert(text@ == left[i as int]@ + seq![' '] + right[i as int]@);
            let piece = Piece {
                position: Position { line: at.line + i as u16, col: at.col },
                style,
                text,
            };
            assert(piece@ == rows[i as int]);
            frame.push(piece);
            assert(frame.deep_view() == before.push(piece@));
            assert(rows.take(i + 1) == rows.take(i as int).push(rows[i as int]));
            i += 1;
        }
        assert(rows.take(5) == rows);
    }

    /// Appends a colon at `at` to `frame`.
    pub fn draw_colon(&self, frame: &mut Vec<Piece>, at: &Position)
        requires
            at.line <= 0x7fff,
        ensures
            final(frame).deep_view() == old(frame).deep_view() + colon_rows(
                self.font,
                *at,
                Style::Clock { faint: self.paused, color: self.color_index },
            ),
    {
        let style = self.style();
        let ghost before = frame.deep_view();
        let mut upper = String::new();
        push_char(&mut upper, self.font.dots.0);
        let mut lower = String::new();
        push_char(&mut lower, self.font.dots.1);
        let first = Piece { position: Position { line: at.line + 1, col: at.col }, style, text: upper };
        let second = Piece {
            position: Position { line: at.line + 3, col: at.col },
            style,
            text: lower,
        };
        let ghost pieces = seq![first@, second@];
        frame.push(first);
        frame.push(second);
        assert(frame.deep_view() == before + pieces);
    }

    /// The text that counts the days.
    pub fn day_count(days: u32) -> (text: String)
        ensures
            text@ == days_text(days),
    {
        let mut count = String::new();
        push_char(&mut count, '+');
        push_char(&mut count, ' ');
        push_decimal(&mut count, days);
        push_text(&mut count, " DAY");
        if days != 1 {
            push_char(&mut count, 'S');
        }
        proof {
            reveal_strlit(" DAY");
            assert(" DAY"@ == seq![' ', 'D', 'A', 'Y']);
        }
        let ghost plain = seq!['+', ' '] + decimal(days as nat) + (if days == 1 {
            seq![' ', 'D', 'A', 'Y']
        } else {
            seq![' ', 'D', 'A', 'Y', 'S']
        });
        assert(count@ == plain);
        let chars = chars_of(count.as_str());
        let mut text = String::new();
        let mut n: usize = chars.len();
        while n < 11
            invariant
                chars@.len() <= n,
                n <= 11 || n == chars@.len(),
                text@ == Seq::new((n - chars@.len()) as nat, |i: int| ' '),
            decreases 11 - n,
        {
            push_char(&mut text, ' ');
            n += 1;
        }
        push_text(&mut text, count.as_str());
        text
    }

    /// The parts of the clock that are to be drawn, as pieces of text.
    pub fn draw(&self, layout: &Layout, force_redraw: bool) -> (frame: Vec<Piece>)
        requires
            self.wf(),
            layout.wf(),
        ensures
            frame.deep_view() == face(*self, *layout, force_redraw),
    {
        let style = self.style();
        let mut frame: Vec<Piece> = Vec::new();
        assert(frame.deep_view() == Seq::<PieceView>::empty());
        if force_redraw || self.elapsed % 3600 == 0 {
            if self.elapsed >= 3600 {
                self.draw_digit_pair(&mut frame, self.elapsed / 3600, &layout.clock_hr);
                self.draw_colon(&mut frame, &layout.clock_colon1);
            }
            if self.days > 0 {
                let ghost before = frame.deep_view();
                let text = Clock::day_count(self.days);
                let piece = Piece { position: layout.clock_days, style, text };
                let ghost added = piece@;
                frame.push(piece);
                assert(frame.deep_view() == before + seq![added]);
            }
        }
        if force_redraw || self.elapsed % 60 == 0 {
            self.draw_digit_pair(&mut frame, (self.elapsed % 3600) / 60, &layout.clock_min);
        }
        if force_redraw {
            self.draw_colon(&mut frame, &layout.clock_colon0);
        }
        self.draw_digit_pair(&mut frame, self.elapsed % 60, &layout.clock_sec);
        assert(frame.deep_view() == face(*self, *layout, force_redraw));
        frame
    }
}

} // verus!
