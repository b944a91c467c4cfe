//! The digits of the clock, drawn with block characters.

use vstd::prelude::*;

verus! {

/// A set of glyphs for the ten digits, each five rows high, and the two dots
/// of a colon.
#[derive(Clone, Copy, Debug)]
pub struct Font {
    pub height: u16,
    pub width: u16,
    pub dots: (char, char),
    pub digits: [[&'static str; 5]; 10],
}

/// The font of half blocks.
pub open spec fn normal_font() -> Font {
    Font {
        height: 5,
        width: 5,
        dots: ('■', '■'),
        digits: [
            ["█▀▀▀█", "█   █", "█   █", "█   █", "█▄▄▄█"],
            ["  ▀█ ", "   █ ", "   █ ", "   █ ", "   █ "],
            ["▀▀▀▀█", "    █", "█▀▀▀▀", "█    ", "█▄▄▄▄"],
            ["▀▀▀▀█", "    █", " ▀▀▀█", "    █", "▄▄▄▄█"],
            ["█    ", "█  █ ", "▀▀▀█▀", "   █ ", "   █ "],
            ["█▀▀▀▀", "█    ", "▀▀▀▀█", "    █", "▄▄▄▄█"],
            ["█    ", "█    ", "█▀▀▀█", "█   █", "█▄▄▄█"],
            ["▀▀▀▀█", "    █", "   █ ", "  █  ", "  █  "],
            ["█▀▀▀█", "█   █", "█▀▀▀█", "█   █", "█▄▄▄█"],
            ["█▀▀▀█", "█   █", "▀▀▀▀█", "    █", "    █"],
        ],
    }
}

/// The font of full blocks only.
pub open spec fn plain_font() -> Font {
    Font {
        height: 5,
        width: 5,
        dots: ('█', '█'),
        digits: [
            ["█████", "█   █", "█   █", "█   █", "█████"],
            ["  ██ ", "   █ ", "   █ ", "   █ ", "   █ "],
            ["█████", "    █", "█████", "█    ", "█████"],
            ["█████", "    █", " ████", "    █", "█████"],
            ["█    ", "█  █ ", "█████", "   █ ", "   █ "],
            ["█████", "█    ", "█████", "    █", "█████"],
            ["█    ", "█    ", "█████", "█   █", "█████"],
            ["█████", "    █", "   █ ", "  █  ", "  █  "],
            ["█████", "█   █", "█████", "█   █", "█████"],
            ["█████", "█   █", "█████", "    █", "    █"],
        ],
    }
}

/// The font that adds rarer block characters.
pub open spec fn chrome_font() -> Font {
    Font {
        height: 5,
        width: 5,
        dots: ('▄', '🮏'),
        digits: [
            ["█▀▀▀█", "█   █", "▀   ▀", "🮐   🮐", "🮐🮏🮏🮏🮐"],
            ["  ▀█ ", "   █ ", "   ▀ ", "   🮐 ", "   🮐 "],
            ["▀▀▀▀█", "    █", "▀▀▀▀▀", "🮐    ", "🮐🮏🮏🮏🮏"],
            ["▀▀▀▀█", "    █", " ▀▀▀▀", "    🮐", "🮏🮏🮏🮏🮐"],
            ["█    ", "█  █ ", "▀▀▀▀▀", "   🮐 ", "   🮐 "],
            ["█▀▀▀▀", "█    ", "▀▀▀▀▀", "    🮐", "🮏🮏🮏🮏🮐"],
            ["█    ", "█    ", "▀▀▀▀▀", "🮐   🮐", "🮐🮏🮏🮏🮐"],
            ["▀▀▀▀█", "    █", "   ▀ ", "  🮐  ", "  🮐  "],
            ["█▀▀▀█", "█   █", "▀▀▀▀▀", "🮐   🮐", "🮐🮏🮏🮏🮐"],
            ["█▀▀▀█", "█   █", "▀▀▀▀▀", "    🮐", "    🮐"],
        ],
    }
}

impl Font {
    /// What the layout asks of a font: four rows at least, so that both dots
    /// of a colon stand beside the digits, and a width that leaves room for
    /// six digits in a row.
    pub open spec fn wf(&self) -> bool {
        &&& 4 <= self.height
        &&& 1 <= self.width <= 10000
    }

    /// The font of half blocks.
    pub fn normal() -> (font: Font)
        ensures
            font == normal_font(),
            font.wf(),
    {
        Font {
            height: 5,
            width: 5,
            dots: ('■', '■'),
            digits: [
                ["█▀▀▀█", "█   █", "█   █", "█   █", "█▄▄▄█"],
                ["  ▀█ ", "   █ ", "   █ ", "   █ ", "   █ "],
                ["▀▀▀▀█", "    █", "█▀▀▀▀", "█    ", "█▄▄▄▄"],
                ["▀▀▀▀█", "    █", " ▀▀▀█", "    █", "▄▄▄▄█"],
                ["█    ", "█  █ ", "▀▀▀█▀", "   █ ", "   █ "],
                ["█▀▀▀▀", "█    ", "▀▀▀▀█", "    █", "▄▄▄▄█"],
                ["█    ", "█    ", "█▀▀▀█", "█   █", "█▄▄▄█"],
                ["▀▀▀▀█", "    █", "   █ ", "  █  ", "  █  "],
                ["█▀▀▀█", "█   █", "█▀▀▀█", "█   █", "█▄▄▄█"],
                ["█▀▀▀█", "█   █", "▀▀▀▀█", "    █", "    █"],
            ],
        }
    }

    /// The font of full blocks only.
    pub fn plain() -> (font: Font)
        ensures
            font == plain_font(),
            font.wf(),
    {
        Font {
            height: 5,
            width: 5,
            dots: ('█', '█'),
            digits: [
                ["█████", "█   █", "█   █", "█   █", "█████"],
                ["  ██ ", "   █ ", "   █ ", "   █ ", "   █ "],
                ["█████", "    █", "█████", "█    ", "█████"],
                ["█████", "    █", " ████", "    █", "█████"],
                ["█    ", "█  █ ", "█████", "   █ ", "   █ "],
                ["█████", "█    ", "█████", "    █", "█████"],
                ["█    ", "█    ", "█████", "█   █", "█████"],
                ["█████", "    █", "   █ ", "  █  ", "  █  "],
                ["█████", "█   █", "█████", "█   █", "█████"],
                ["█████", "█   █", "█████", "    █", "    █"],
            ],
        }
    }

    /// The font that adds rarer block characters.
    pub fn chrome() -> (font: Font)
        ensures
            font == chrome_font(),
            font.wf(),
    {
        Font {
            height: 5,
            width: 5,
            dots: ('▄', '🮏'),
            digits: [
                ["█▀▀▀█", "█   █", "▀   ▀", "🮐   🮐", "🮐🮏🮏🮏🮐"],
                ["  ▀█ ", "   █ ", "   ▀ ", "   🮐 ", "   🮐 "],
                ["▀▀▀▀█", "    █", "▀▀▀▀▀", "🮐    ", "🮐🮏🮏🮏🮏"],
                ["▀▀▀▀█", "    █", " ▀▀▀▀", "    🮐", "🮏🮏🮏🮏🮐"],
                ["█    ", "█  █ ", "▀▀▀▀▀", "   🮐 ", "   🮐 "],
                ["█▀▀▀▀", "█    ", "▀▀▀▀▀", "    🮐", "🮏🮏🮏🮏🮐"],
                ["█    ", "█    ", "▀▀▀▀▀", "🮐   🮐", "🮐🮏🮏🮏🮐"],
                ["▀▀▀▀█", "    █", "   ▀ ", "  🮐  ", "  🮐  "],
                ["█▀▀▀█", "█   █", "▀▀▀▀▀", "🮐   🮐", "🮐🮏🮏🮏🮐"],
                ["█▀▀▀█", "█   █", "▀▀▀▀▀", "    🮐", "    🮐"],
            ],
        }
    }
}

} // verus!
