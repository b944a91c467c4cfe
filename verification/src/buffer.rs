//! The line in which the user types a new alarm.

use crate::layout::Layout;
use crate::screen::Piece;
use crate::screen::PieceView;
use crate::screen::Style;
use crate::text::chars_of;
use crate::text::display_width;
use crate::text::drop_space;
use crate::text::pop_char;
use crate::text::push_char;
use crate::text::push_text;
use crate::text::shorten;
use crate::text::text_of;
use crate::text::trim_end;
use crate::text::width_of;
use crate::text::word_pieces;
use crate::text::words_of;
use vstd::prelude::*;

verus! {

/// What stands before the input.
pub const PROMPT: &'static str = "Add alarm: ";

/// What was typed, a message that takes its place while there is one, and
/// whether the line shows.
#[derive(Debug)]
pub struct Buffer {
    pub content: String,
    pub message: Option<&'static str>,
    pub visible: bool,
}

/// A buffer with its texts as sequences of characters.
pub struct BufferView {
    pub content: Seq<char>,
    pub message: Option<Seq<char>>,
    pub visible: bool,
}

impl View for Buffer {
    type V = BufferView;

    open spec fn view(&self) -> BufferView {
        BufferView {
            content: self.content@,
            message: match self.message {
                Some(m) => Some(m@),
                None => None,
            },
            visible: self.visible,
        }
    }
}

/// `content` without its last word: without the white space at its end and
/// the last of the pieces between word boundaries before that. A text of
/// white space alone stays as it is.
pub open spec fn without_last_word(content: Seq<char>) -> Seq<char> {
    let pieces = word_pieces(trim_end(content));
    if pieces.len() > 0 {
        pieces.drop_last().flatten()
    } else {
        content
    }
}

/// Whether a text of `text_width` columns behind a prompt of `prompt_width`
/// columns fits into `width` columns.
pub open spec fn fits(text_width: nat, prompt_width: nat, width: u16) -> bool {
    text_width + prompt_width <= width
}

/// Whether a text of `text_width` columns behind a prompt of `prompt_width`
/// columns fits into `width` columns.
pub fn fits_in(text_width: usize, prompt_width: usize, width: u16) -> (r: bool)
    ensures
        r == fits(text_width as nat, prompt_width as nat, width),
{
    text_width <= width as usize && prompt_width <= width as usize - text_width
}

/// The longest beginning of `content` that fits behind the prompt into
/// `width` columns; nothing where none fits.
pub open spec fn fitted(content: Seq<char>, width: u16) -> Seq<char>
    decreases content.len(),
{
    if content.len() == 0 || fits(display_width(content), display_width(PROMPT@), width) {
        content
    } else {
        fitted(content.drop_last(), width)
    }
}

/// What the buffer shows on its line: the message while there is one, else a
/// cleared line while nothing is typed, else what was typed as far as it
/// fits.
pub open spec fn line(buffer: BufferView, layout: Layout) -> PieceView {
    match buffer.message {
        Some(m) => PieceView { position: layout.buffer, style: Style::Message, text: m },
        None => if buffer.content.len() == 0 {
            PieceView { position: layout.buffer, style: Style::Blank, text: Seq::empty() }
        } else {
            PieceView {
                position: layout.buffer,
                style: Style::Input,
                text: fitted(buffer.content, layout.width),
            }
        },
    }
}

impl Buffer {
    /// An empty buffer that does not show.
    pub fn new() -> (buffer: Buffer)
        ensures
            buffer@ == (BufferView { content: Seq::empty(), message: None, visible: false }),
    {
        Buffer { content: String::new(), message: None, visible: false }
    }

    /// What was typed.
    pub fn read(&self) -> (content: &String)
        ensures
            content@ == self@.content,
    {
        &self.content
    }

    /// Appends a character to what was typed. The message goes.
    pub fn push(&mut self, value: char)
        ensures
            final(self)@ == (BufferView {
                content: old(self)@.content.push(value),
                message: None,
                ..old(self)@
            }),
    {
        self.message = None;
        push_char(&mut self.content, value);
    }

    /// Takes the last character off what was typed. The message goes.
    pub fn strip_char(&mut self)
        ensures
            final(self)@ == (BufferView {
                content: if old(self)@.content.len() > 0 {
                    old(self)@.content.drop_last()
                } else {
                    old(self)@.content
                },
                message: None,
                ..old(self)@
            }),
    {
        self.message = None;
        let _ = pop_char(&mut self.content);
    }

    /// Takes the last word off what was typed. The message goes.
    pub fn strip_word(&mut self)
        ensures
            final(self)@ == (BufferView {
                content: without_last_word(old(self)@.content),
                message: None,
                ..old(self)@
            }),
    {
        self.message = None;
        let chars = chars_of(self.content.as_str());
        let end = drop_space(&chars, 0, chars.len());
        assert(chars@.subrange(0, chars.len() as int) == self.content@);
        let trimmed = text_of(&chars, 0, end);
        let pieces = words_of(trimmed.as_str());
        if pieces.len() > 0 {
            assert(pieces.deep_view().take(pieces.len() - 1) == pieces.deep_view().drop_last());
            match shorten(&pieces, pieces.len() - 1, None) {
                Some(rest) => {
                    self.content = rest;
                },
                None => {},
            }
        }
    }

    /// Whether nothing is typed.
    pub fn is_empty(&self) -> (r: bool)
        ensures
            r == (self@.content.len() == 0),
    {
        self.content.as_str().is_empty()
    }

    /// Wipes what was typed.
    pub fn clear(&mut self)
        ensures
            final(self)@ == (BufferView { content: Seq::empty(), ..old(self)@ }),
    {
        self.content = String::new();
    }

    /// Wipes what was typed and the message.
    pub fn reset(&mut self)
        ensures
            final(self)@ == (BufferView { content: Seq::empty(), message: None, ..old(self)@ }),
    {
        self.message = None;
        self.clear();
    }

    /// The line of the buffer as a piece of text. What was typed loses the
    /// characters at its end that do not fit into the terminal.
    pub fn draw(&mut self, layout: &Layout) -> (piece: Piece)
        ensures
            piece@ == line(old(self)@, *layout),
            final(self)@ == (BufferView {
                content: if old(self)@.message is None {
                    fitted(old(self)@.content, layout.width)
                } else {
                    old(self)@.content
                },
                ..old(self)@
            }),
    {
        if let Some(m) = self.message {
            let mut text = String::new();
            push_text(&mut text, m);
            return Piece { position: layout.buffer, style: Style::Message, text };
        }
        if self.content.as_str().is_empty() {
            return Piece { position: layout.buffer, style: Style::Blank, text: String::new() };
        }
        let prompt_width = width_of(PROMPT);
        let ghost whole = self.content@;
        loop
            invariant
                self.message is None,
                self.visible == old(self).visible,
                whole == old(self).content@,
                prompt_width == display_width(PROMPT@),
                fitted(self.content@, layout.width) == fitted(whole, layout.width),
            ensures
                self.content@ == fitted(whole, layout.width),
            decreases self.content@.len(),
        {
            let text_width = width_of(self.content.as_str());
            if fits_in(text_width, prompt_width, layout.width) {
                break ;
            }
            if pop_char(&mut self.content).is_none() {
                break ;
            }
        }
        Piece { position: layout.buffer, style: Style::Input, text: self.content.clone() }
    }

    /// Takes a message, which shows in place of what was typed.
    pub fn message(&mut self, msg: &'static str)
        ensures
            final(self)@ == (BufferView { message: Some(msg@), ..old(self)@ }),
    {
        self.message = Some(msg);
    }
}

} // verus!
