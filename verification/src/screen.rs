//! What the library hands to the terminal: pieces of text, each with the cell
//! where it begins and the kind of element it belongs to. Turning a piece
//! into cursor movements and colours is left to whoever writes to the
//! terminal.

use crate::layout::Position;
use vstd::prelude::*;

verus! {

/// The kind of element that a piece of text belongs to.
#[derive(Clone, Copy, Debug, PartialEq, Eq, Structural)]
pub enum Style {
    /// The menu bar. It is faint, and all that follows it on the screen is
    /// cleared.
    Menu,
    /// A faint row of the roster that stands for alarms out of sight.
    Hint,
    /// The label of an alarm that is still to come, behind a mark in the
    /// colour with the given index.
    Pending(usize),
    /// The label of an alarm that was raised, in the colour with the given
    /// index.
    Exceeded(usize),
    /// What was typed, behind the prompt. The cursor shows after it.
    Input,
    /// A message in the colour of errors, behind the prompt.
    Message,
    /// A line that is cleared. The cursor is hidden.
    Blank,
    /// A part of the clock: faint while the clock is paused, and in the colour
    /// of the alarm raised last, if there is one.
    Clock { faint: bool, color: Option<usize> },
    /// The time left until the next alarm.
    Countdown,
}

/// A text and the cell of the terminal where it begins.
#[derive(Debug)]
pub struct Piece {
    pub position: Position,
    pub style: Style,
    pub text: String,
}

/// A piece with its text as a sequence of characters.
pub struct PieceView {
    pub position: Position,
    pub style: Style,
    pub text: Seq<char>,
}

impl View for Piece {
    type V = PieceView;

    open spec fn view(&self) -> PieceView {
        PieceView { position: self.position, style: self.style, text: self.text@ }
    }
}

impl DeepView for Piece {
    type V = PieceView;

    open spec fn deep_view(&self) -> PieceView {
        self@
    }
}

} // verus!
