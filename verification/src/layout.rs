//! Where each element stands on the terminal.
//!
//! All positions follow from the size of the terminal, the width of the alarm
//! roster and the measures of the clock's font. Columns and lines count from 1.

use crate::clock::Clock;
use vstd::prelude::*;
use vstd::string::StringSliceAdditionalSpecFns;

verus! {

/// A cell of the terminal.
#[derive(Clone, Copy, Debug, PartialEq, Eq, Structural)]
pub struct Position {
    pub line: u16,
    pub col: u16,
}

impl Position {
    /// The upper left corner.
    pub fn new() -> (p: Position)
        ensures
            p == (Position { line: 1, col: 1 }),
    {
        Position { col: 1, line: 1 }
    }
}

/// The positions of all elements, with the measures they were computed from
/// and the two flags that ask for a new computation and for a new drawing.
#[derive(Clone, Copy, Debug)]
pub struct Layout {
    pub force_redraw: bool,
    pub force_recalc: bool,
    pub width: u16,
    pub height: u16,
    pub clock_width: u16,
    pub clock_height: u16,
    pub digit_width: u16,
    pub clock_sec: Position,
    pub clock_colon0: Position,
    pub clock_min: Position,
    pub clock_colon1: Position,
    pub clock_hr: Position,
    pub clock_days: Position,
    pub roster: Position,
    pub roster_width: u16,
    pub roster_height: u16,
    pub buffer: Position,
}

/// A column number as a `u16`: the largest `u16` stands for all above it.
pub open spec fn column(x: int) -> u16 {
    if x > u16::MAX {
        u16::MAX
    } else {
        x as u16
    }
}

/// A column number as a `u16`, the largest `u16` standing for all above it.
pub fn column_of(x: u32) -> (c: u16)
    ensures
        c == column(x as int),
{
    if x > 0xffff {
        0xffff
    } else {
        x as u16
    }
}

impl Layout {
    /// The roster begins in the third line of the first column, and the rows
    /// of the clock and of the roster end well inside the range of `u16`.
    pub open spec fn wf(&self) -> bool {
        &&& self.roster == (Position { line: 3, col: 1 })
        &&& self.roster_height <= 0xfffb
        &&& self.clock_sec.line <= 0x7fff
        &&& self.clock_colon0.line <= 0x7fff
        &&& self.clock_min.line <= 0x7fff
        &&& self.clock_colon1.line <= 0x7fff
        &&& self.clock_hr.line <= 0x7fff
    }

    /// Whether the clock's measures are those of a font that is well formed:
    /// `display_hours` tells whether the clock has six digits or four.
    pub open spec fn fitted(&self, display_hours: bool) -> bool {
        &&& self.clock_height >= 4
        &&& self.digit_width <= 10000
        &&& self.clock_width >= 4 * self.digit_width + 6
        &&& display_hours ==> self.clock_width >= 6 * self.digit_width + 12
    }

    /// Whether the terminal is smaller than the clock.
    pub open spec fn too_small(&self) -> bool {
        self.width < self.clock_width || self.height < self.clock_height
    }

    /// The column in the middle of what the roster leaves free.
    pub open spec fn center(&self) -> int {
        (self.width + self.roster_width) / 2
    }

    /// The layout with all positions computed anew from its measures. A
    /// terminal smaller than the clock leaves every position as it was.
    pub open spec fn computed(self, display_hours: bool) -> Layout {
        if self.too_small() {
            self
        } else {
            let middle = (self.height / 2 - 1) as u16;
            let c = self.center();
            let d = self.digit_width as int;
            let sec = Position {
                line: middle,
                col: column(
                    if display_hours {
                        c + d + 6
                    } else {
                        c + 3
                    },
                ),
            };
            Layout {
                clock_sec: sec,
                clock_colon0: Position {
                    line: middle,
                    col: column(
                        if display_hours {
                            c + d + 3
                        } else {
                            c
                        },
                    ),
                },
                clock_min: Position {
                    line: middle,
                    col: (if display_hours {
                        c - d
                    } else {
                        c - (2 * d + 3)
                    }) as u16,
                },
                clock_colon1: if display_hours {
                    Position { line: middle, col: (c - (d + 3)) as u16 }
                } else {
                    self.clock_colon1
                },
                clock_hr: if display_hours {
                    Position { line: middle, col: (c - (3 * d + 6)) as u16 }
                } else {
                    self.clock_hr
                },
                clock_days: Position { line: (middle + d) as u16, col: sec.col },
                roster_height: (self.height - self.roster.line - 1) as u16,
                buffer: Position { line: self.height, col: 1 },
                ..self
            }
        }
    }

    /// The layout with the size of the terminal and the measures of the clock
    /// written into it.
    pub open spec fn measured(self, clock: Clock, width: u16, height: u16) -> Layout {
        Layout {
            width,
            height,
            clock_width: clock.width(),
            clock_height: clock.font.height,
            digit_width: clock.font.width,
            ..self
        }
    }

    /// The layout after an update: computed anew for the given size and clock
    /// where a new computation is due or `force` asks for one.
    pub open spec fn updated(self, clock: Clock, width: u16, height: u16, force: bool) -> Layout {
        if self.force_recalc || force {
            (Layout { force_recalc: false, ..self }).measured(clock, width, height).computed(
                clock.elapsed >= 3600,
            )
        } else {
            self
        }
    }

    /// The layout of a terminal whose size is not known yet.
    pub fn new() -> (layout: Layout)
        ensures
            layout.wf(),
            layout.force_redraw,
            layout.force_recalc,
            layout.width == 0,
            layout.height == 0,
            layout.clock_width == 0,
            layout.clock_height == 0,
            layout.digit_width == 0,
            layout.clock_sec == (Position { line: 1, col: 1 }),
            layout.clock_colon0 == (Position { line: 1, col: 1 }),
            layout.clock_min == (Position { line: 1, col: 1 }),
            layout.clock_colon1 == (Position { line: 1, col: 1 }),
            layout.clock_hr == (Position { line: 1, col: 1 }),
            layout.clock_days == (Position { line: 1, col: 1 }),
            layout.roster_width == 0,
            layout.roster_height == 0,
            layout.buffer == (Position { line: 1, col: 1 }),
    {
        Layout {
            force_redraw: true,
            force_recalc: true,
            width: 0,
            height: 0,
            clock_width: 0,
            clock_height: 0,
            digit_width: 0,
            clock_sec: Position::new(),
            clock_colon0: Position::new(),
            clock_min: Position::new(),
            clock_colon1: Position::new(),
            clock_hr: Position::new(),
            clock_days: Position::new(),
            roster: Position { col: 1, line: 3 },
            roster_width: 0,
            roster_height: 0,
            buffer: Position::new(),
        }
    }

    /// Brings the layout up to date where a new computation is due or `force`
    /// asks for one: takes the size of the terminal and the measures of the
    /// clock, and computes all positions. Tells whether it did.
    pub fn update(&mut self, clock: &Clock, width: u16, height: u16, force: bool) -> (changed:
        bool)
        requires
            old(self).wf(),
            clock.wf(),
        ensures
            final(self).wf(),
            changed == (old(self).force_recalc || force),
            *final(self) == old(self).updated(*clock, width, height, force),
    {
        if self.force_recalc || force {
            self.force_recalc = false;
            self.width = width;
            self.height = height;
            self.clock_width = clock.get_width();
            self.clock_height = clock.font.height;
            self.digit_width = clock.font.width;
            self.compute(clock.elapsed >= 3600);
            true
        } else {
            false
        }
    }

    /// Asks for a new computation at the next update.
    pub fn schedule_recalc(&mut self)
        ensures
            *final(self) == (Layout { force_recalc: true, ..*old(self) }),
    {
        self.force_recalc = true;
    }

    /// Computes the layout of a clock without hours for a terminal of the
    /// given size and a roster of the given width, whatever the flags say.
    pub fn test_update(&mut self, clock: &Clock, width: u16, height: u16, roster_width: u16)
        requires
            old(self).wf(),
            clock.wf(),
        ensures
            final(self).wf(),
            *final(self) == (Layout { roster_width, ..*old(self) }).measured(
                *clock,
                width,
                height,
            ).computed(false),
    {
        self.width = width;
        self.height = height;
        self.clock_width = clock.get_width();
        self.clock_height = clock.font.height;
        self.digit_width = clock.font.width;
        self.roster_width = roster_width;
        self.compute(false);
    }

    /// Whether the terminal has a column for each byte of `other`.
    pub fn can_hold(&self, other: &str) -> (r: bool)
        ensures
            r == (other.spec_bytes().len() <= self.width),
    {
        other.as_bytes().len() <= self.width as usize
    }

    /// Computes the position of each element from the size of the terminal.
    /// Where the terminal is smaller than the clock nothing changes.
    pub fn compute(&mut self, display_hours: bool)
        requires
            old(self).wf(),
            old(self).fitted(display_hours),
        ensures
            final(self).wf(),
            *final(self) == old(self).computed(display_hours),
    {
        if self.width < self.clock_width || self.height < self.clock_height {
            return ;
        }
        let middle: u16 = self.height / 2 - 1;
        let c: u32 = (self.width as u32 + self.roster_width as u32) / 2;
        let d: u32 = self.digit_width as u32;

        if display_hours {
            self.clock_sec.col = column_of(c + d + 6);
            self.clock_colon0.col = column_of(c + d + 3);
            self.clock_min.col = (c - d) as u16;
            self.clock_colon1 = Position { col: (c - (d + 3)) as u16, line: middle };
            self.clock_hr = Position { col: (c - (d * 3 + 6)) as u16, line: middle };
        } else {
            self.clock_sec.col = column_of(c + 3);
            self.clock_colon0.col = column_of(c);
            self.clock_min.col = (c - (d * 2 + 3)) as u16;
        }
        self.clock_sec.line = middle;
        self.clock_colon0.line = middle;
        self.clock_min.line = middle;

        self.clock_days = Position {
            line: (middle as u32 + d) as u16,
            col: self.clock_sec.col,
        };
        self.roster_height = self.height - self.roster.line - 1;
        self.buffer = Position { line: self.height, col: 1 };
    }

    /// Takes a new width of the roster, and asks for a new computation where
    /// it differs from the one the layout has.
    pub fn set_roster_width(&mut self, width: u16)
        ensures
            *final(self) == (if old(self).roster_width != width {
                Layout { roster_width: width, force_recalc: true, ..*old(self) }
            } else {
                *old(self)
            }),
    {
        if self.roster_width != width {
            self.roster_width = width;
            self.force_recalc = true;
        }
    }
}

/// Whatever the size of the terminal, computing a layout leaves every
/// position within the range of its type and the layout well formed.
pub proof fn lemma_computed_wf(layout: Layout, display_hours: bool)
    requires
        layout.wf(),
        layout.fitted(display_hours),
    ensures
        layout.computed(display_hours).wf(),
        layout.too_small() ==> layout.computed(display_hours) == layout,
        !layout.too_small() ==> layout.computed(display_hours).roster_height == layout.height - 4,
        !layout.too_small() ==> layout.computed(display_hours).clock_min.col + (if display_hours {
            layout.digit_width as int
        } else {
            2 * layout.digit_width + 3
        }) == layout.center(),
{
}

} // verus!
