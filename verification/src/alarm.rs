//! The alarms: a roster ordered by time, the parsing of what the user types
//! into an alarm, the search for the alarms that are due, and the countdown
//! to the next one.

use crate::clock::Clock;
use crate::clock::DAY;
use crate::layout::column;
use crate::layout::column_of;
use crate::layout::Layout;
use crate::layout::Position;
use crate::screen::Piece;
use crate::screen::PieceView;
use crate::screen::Style;
use crate::text::cap;
use crate::text::capped;
use crate::text::chars_of;
use crate::text::display_width;
use crate::text::drop_space;
use crate::text::find_char;
use crate::text::find_last_char;
use crate::text::grapheme_truncate;
use crate::text::last_position;
use crate::text::lemma_last_position;
use crate::text::number;
use crate::text::parse_number;
use crate::text::position;
use crate::text::push_char;
use crate::text::push_text;
use crate::text::push_two_digits;
use crate::text::skip_space;
use crate::text::text_of;
use crate::text::trim;
use crate::text::truncated;
use crate::text::two_digits;
use crate::text::width_of;
use vstd::prelude::*;

verus! {

/// The character between the time and the label of an alarm.
pub const DELIMITER: char = '/';

/// The number of grapheme clusters that a label keeps.
pub const LABEL_SIZE_LIMIT: usize = 48;

/// The character that ends a label that was cut.
pub const ELLIPSIS: char = '…';

/// The number of colours that the alarms take in turn.
pub const COLORS: usize = 6;

/// Why a text was not taken as an alarm.
#[derive(Clone, Copy, Debug, PartialEq, Eq, Structural)]
pub enum ErrorKind {
    /// A field of the time is not a number.
    Parse,
    /// The time has more than three fields.
    TooManySegments,
    /// Seconds or minutes are 60 or more though a field stands before them.
    FieldRange,
    /// The time is zero.
    ZeroDuration,
    /// The time is a day or more.
    OutOfRange,
    /// The roster has an alarm at that time.
    Duplicate,
}

impl ErrorKind {
    /// The message for the user.
    pub open spec fn text(self) -> Seq<char> {
        match self {
            ErrorKind::Parse => "Could not parse value as integer."@,
            ErrorKind::TooManySegments => "Too many segments to parse as time."@,
            ErrorKind::FieldRange => "Minutes and seconds must be below 60."@,
            ErrorKind::ZeroDuration => "Evaluates to zero."@,
            ErrorKind::OutOfRange => "Values >24h not supported."@,
            ErrorKind::Duplicate => "Already exists. Duplicate entries not supported."@,
        }
    }

    /// The message for the user.
    pub fn message(&self) -> (m: &'static str)
        ensures
            m@ == self.text(),
    {
        match self {
            ErrorKind::Parse => "Could not parse value as integer.",
            ErrorKind::TooManySegments => "Too many segments to parse as time.",
            ErrorKind::FieldRange => "Minutes and seconds must be below 60.",
            ErrorKind::ZeroDuration => "Evaluates to zero.",
            ErrorKind::OutOfRange => "Values >24h not supported.",
            ErrorKind::Duplicate => "Already exists. Duplicate entries not supported.",
        }
    }
}

/// The seconds that one unit of a field counts: the field of rank 0 holds
/// seconds, that of rank 1 minutes, that of rank 2 hours.
pub open spec fn weight(rank: nat) -> nat {
    if rank == 0 {
        1
    } else if rank == 1 {
        60
    } else {
        3600
    }
}

/// The seconds that `text` stands for, read as fields between colons from
/// the right; the last field of `text` has the given rank.
///
/// An empty field counts nothing. A field that is not empty must be a number.
/// Seconds and minutes must be below 60 where a colon stands before them.
/// A field beyond the hours is one too many. The first fault found from the
/// right decides the error.
pub open spec fn seconds(text: Seq<char>, rank: nat) -> Result<nat, ErrorKind>
    decreases text.len(),
{
    let colon = last_position(text, ':');
    let field = text.skip(colon + 1);
    if rank > 2 {
        Err(ErrorKind::TooManySegments)
    } else if field.len() > 0 && number(field) is None {
        Err(ErrorKind::Parse)
    } else {
        let value: nat = if field.len() == 0 {
            0
        } else {
            number(field)->0 as nat
        };
        if colon < 0 || colon >= text.len() {
            Ok(value * weight(rank))
        } else if rank < 2 && value >= 60 {
            Err(ErrorKind::FieldRange)
        } else {
            match seconds(text.take(colon), rank + 1) {
                Err(e) => Err(e),
                Ok(rest) => Ok(rest + value * weight(rank)),
            }
        }
    }
}

/// The part of `input` that holds the time: what stands before the first
/// delimiter, without the white space around it.
pub open spec fn time_text(input: Seq<char>) -> Seq<char> {
    trim(input.take(position(input, DELIMITER)))
}

/// The label that `input` gives: what follows the first delimiter, cut to
/// the limit of labels. Without a delimiter the label is empty.
pub open spec fn label_text(input: Seq<char>) -> Seq<char> {
    let cut = position(input, DELIMITER);
    if cut < input.len() {
        truncated(input.skip(cut + 1), LABEL_SIZE_LIMIT as nat, ELLIPSIS)
    } else {
        Seq::empty()
    }
}

/// The time of day that `input` sets an alarm for, in seconds: more than
/// none and less than a day.
pub open spec fn alarm_time(input: Seq<char>) -> Result<u32, ErrorKind> {
    match seconds(time_text(input), 0) {
        Err(e) => Err(e),
        Ok(total) => if total == 0 {
            Err(ErrorKind::ZeroDuration)
        } else if total >= DAY {
            Err(ErrorKind::OutOfRange)
        } else {
            Ok(total as u32)
        },
    }
}

/// Reads `chars[from..to]` as a time in seconds.
pub fn parse_time(chars: &Vec<char>, from: usize, to: usize) -> (r: Result<u64, ErrorKind>)
    requires
        from <= to <= chars.len(),
    ensures
        match r {
            Ok(total) => seconds(chars@.subrange(from as int, to as int), 0) == Ok::<
                nat,
                ErrorKind,
            >(total as nat),
            Err(e) => seconds(chars@.subrange(from as int, to as int), 0) == Err::<nat, ErrorKind>(
                e,
            ),
        },
{
    let ghost whole = chars@.subrange(from as int, to as int);
    let mut end: usize = to;
    let mut rank: u8 = 0;
    let mut total: u64 = 0;
    loop
        invariant
            from <= end <= to <= chars.len(),
            rank <= 3,
            whole == chars@.subrange(from as int, to as int),
            total <= rank * 0x1_0000_0000 * 3600,
            match seconds(chars@.subrange(from as int, end as int), rank as nat) {
                Ok(rest) => seconds(whole, 0) == Ok::<nat, ErrorKind>((rest + total) as nat),
                Err(e) => seconds(whole, 0) == Err::<nat, ErrorKind>(e),
            },
        decreases end - from + 1,
    {
        let ghost text = chars@.subrange(from as int, end as int);
        proof {
            lemma_last_position(text, ':');
        }
        if rank > 2 {
            return Err(ErrorKind::TooManySegments);
        }
        let found = find_last_char(chars, from, end, ':');
        let start: usize = match found {
            Some(i) => from + i + 1,
            None => from,
        };
        let ghost colon = last_position(text, ':');
        assert(text.skip(colon + 1) == chars@.subrange(start as int, end as int));
        let value: u64 = if start == end {
            0
        } else {
            match parse_number(chars, start, end) {
                Some(v) => v as u64,
                None => {
                    return Err(ErrorKind::Parse);
                },
            }
        };
        let unit: u64 = if rank == 0 {
            1
        } else if rank == 1 {
            60
        } else {
            3600
        };
        assert(value * unit <= 0xffff_ffff * 3600) by (nonlinear_arith)
            requires
                value <= 0xffff_ffff,
                unit <= 3600,
        ;
        match found {
            None => {
                return Ok(total + value * unit);
            },
            Some(i) => {
                if rank < 2 && value >= 60 {
                    return Err(ErrorKind::FieldRange);
                }
                assert(text.take(colon) == chars@.subrange(from as int, from + i));
                total = total + value * unit;
                end = from + i;
                rank = rank + 1;
            },
        }
    }
}


/// An alarm: the time of day at which it is due, in seconds, the label shown
/// for it, the index of its colour, and whether its time has passed.
#[derive(Debug)]
pub struct Alarm {
    pub time: u32,
    pub label: String,
    pub color_index: usize,
    pub exceeded: bool,
}

/// An alarm with its label as a sequence of characters.
pub struct AlarmView {
    pub time: u32,
    pub label: Seq<char>,
    pub color_index: usize,
    pub exceeded: bool,
}

impl View for Alarm {
    type V = AlarmView;

    open spec fn view(&self) -> AlarmView {
        AlarmView {
            time: self.time,
            label: self.label@,
            color_index: self.color_index,
            exceeded: self.exceeded,
        }
    }
}

impl DeepView for Alarm {
    type V = AlarmView;

    open spec fn deep_view(&self) -> AlarmView {
        self@
    }
}

impl Alarm {
    /// Makes the alarm wait for its time again.
    pub fn reset(&mut self)
        ensures
            final(self)@ == (AlarmView { exceeded: false, ..old(self)@ }),
    {
        self.exceeded = false;
    }

    /// A copy of the alarm.
    pub fn duplicate(&self) -> (copy: Alarm)
        ensures
            copy@ == self@,
    {
        Alarm {
            time: self.time,
            label: self.label.clone(),
            color_index: self.color_index,
            exceeded: self.exceeded,
        }
    }
}

/// The index of the first alarm of `list` that meets `p`, or the length of
/// the list where none does.
pub open spec fn first_index(list: Seq<AlarmView>, p: spec_fn(AlarmView) -> bool) -> int
    decreases list.len(),
{
    if list.len() == 0 || p(list[0]) {
        0
    } else {
        1 + first_index(list.drop_first(), p)
    }
}

/// The index of the last alarm of `list` that meets `p`, or -1 where none
/// does.
pub open spec fn last_index(list: Seq<AlarmView>, p: spec_fn(AlarmView) -> bool) -> int
    decreases list.len(),
{
    if list.len() == 0 {
        -1
    } else if p(list.last()) {
        list.len() - 1
    } else {
        last_index(list.drop_last(), p)
    }
}

/// `first_index` is the least index of an alarm that meets `p`.
pub proof fn lemma_first_index(list: Seq<AlarmView>, p: spec_fn(AlarmView) -> bool)
    ensures
        0 <= first_index(list, p) <= list.len(),
        first_index(list, p) < list.len() ==> p(list[first_index(list, p)]),
        forall|j: int| 0 <= j < first_index(list, p) ==> !p(#[trigger] list[j]),
    decreases list.len(),
{
    if list.len() == 0 || p(list[0]) {
    } else {
        let rest = list.drop_first();
        lemma_first_index(rest, p);
        assert forall|j: int| 0 <= j < first_index(list, p) implies !p(#[trigger] list[j]) by {
            if j > 0 {
                assert(list[j] == rest[j - 1]);
            }
        }
    }
}

/// An index whose alarm meets `p`, while none before it does, is the
/// `first_index`; and so is the length where no alarm meets `p`.
pub proof fn lemma_first_index_is(list: Seq<AlarmView>, p: spec_fn(AlarmView) -> bool, i: int)
    requires
        0 <= i <= list.len(),
        i < list.len() ==> p(list[i]),
        forall|j: int| 0 <= j < i ==> !p(#[trigger] list[j]),
    ensures
        first_index(list, p) == i,
{
    lemma_first_index(list, p);
    let f = first_index(list, p);
    if f < i {
        assert(!p(list[f]));
    }
}

/// `last_index` is the greatest index of an alarm that meets `p`.
pub proof fn lemma_last_index(list: Seq<AlarmView>, p: spec_fn(AlarmView) -> bool)
    ensures
        -1 <= last_index(list, p) < list.len(),
        last_index(list, p) >= 0 ==> p(list[last_index(list, p)]),
        forall|j: int| last_index(list, p) < j < list.len() ==> !p(#[trigger] list[j]),
    decreases list.len(),
{
    if list.len() == 0 || p(list.last()) {
    } else {
        let rest = list.drop_last();
        lemma_last_index(rest, p);
        assert forall|j: int| last_index(list, p) < j < list.len() implies !p(
            #[trigger] list[j],
        ) by {
            if j < list.len() - 1 {
                assert(list[j] == rest[j]);
            }
        }
    }
}

/// An index whose alarm meets `p`, while none after it does, is the
/// `last_index`; and so is -1 where no alarm meets `p`.
pub proof fn lemma_last_index_is(list: Seq<AlarmView>, p: spec_fn(AlarmView) -> bool, i: int)
    requires
        -1 <= i < list.len(),
        i >= 0 ==> p(list[i]),
        forall|j: int| i < j < list.len() ==> !p(#[trigger] list[j]),
    ensures
        last_index(list, p) == i,
{
    lemma_last_index(list, p);
    let l = last_index(list, p);
    if l > i {
        assert(!p(list[l]));
    }
}

/// Whether the times of `list` rise from each alarm to the next.
pub open spec fn ordered(list: Seq<AlarmView>) -> bool {
    forall|i: int, j: int| 0 <= i < j < list.len() ==> list[i].time < list[j].time
}

/// Whether `list` is what a roster may hold: alarms in the order of their
/// times, no two at one time, each at a time of day other than midnight and
/// with the index of a colour.
pub open spec fn roster_wf(list: Seq<AlarmView>) -> bool {
    &&& ordered(list)
    &&& forall|i: int|
        0 <= i < list.len() ==> 0 < (#[trigger] list[i]).time < DAY && list[i].color_index < COLORS
}

/// Whether `list` has an alarm at `time`.
pub open spec fn has_time(list: Seq<AlarmView>, time: u32) -> bool {
    exists|i: int| 0 <= i < list.len() && (#[trigger] list[i]).time == time
}

/// The index at which an alarm at `time` enters `list`: that of the first
/// alarm that is not earlier.
pub open spec fn slot(list: Seq<AlarmView>, time: u32) -> int {
    first_index(list, |a: AlarmView| a.time >= time)
}

/// The alarm that `input` describes when it enters a roster of `count`
/// alarms.
pub open spec fn new_alarm(input: Seq<char>, time: u32, count: nat) -> AlarmView {
    AlarmView {
        time,
        label: label_text(input),
        color_index: (count % (COLORS as nat)) as usize,
        exceeded: false,
    }
}

/// What adding `input` makes of `list`: the list with the new alarm at its
/// place, or the reason why `input` is refused.
pub open spec fn added(list: Seq<AlarmView>, input: Seq<char>) -> Result<
    Seq<AlarmView>,
    ErrorKind,
> {
    match alarm_time(input) {
        Err(e) => Err(e),
        Ok(time) => if has_time(list, time) {
            Err(ErrorKind::Duplicate)
        } else {
            Ok(list.insert(slot(list, time), new_alarm(input, time, list.len())))
        },
    }
}

/// `list` after each of `inputs` was added in turn, the refused ones left
/// out.
pub open spec fn added_all(list: Seq<AlarmView>, inputs: Seq<Seq<char>>) -> Seq<AlarmView>
    decreases inputs.len(),
{
    if inputs.len() == 0 {
        list
    } else {
        added_all(
            match added(list, inputs[0]) {
                Ok(next) => next,
                Err(_) => list,
            },
            inputs.drop_first(),
        )
    }
}

/// Adding an alarm to a well-formed list leaves a well-formed list.
pub proof fn lemma_added_wf(list: Seq<AlarmView>, input: Seq<char>)
    requires
        roster_wf(list),
    ensures
        added(list, input) matches Ok(next) ==> roster_wf(next) && next.len() == list.len() + 1,
{
    if let Ok(next) = added(list, input) {
        let time = alarm_time(input)->Ok_0;
        let p = |a: AlarmView| a.time >= time;
        let at = slot(list, time);
        lemma_first_index(list, p);
        let alarm = new_alarm(input, time, list.len());
        assert(next == list.insert(at, alarm));
        assert forall|j: int| at <= j < list.len() implies (#[trigger] list[j]).time > time by {
            assert(list[j].time >= list[at].time);
            assert(p(list[at]));
        }
        assert forall|j: int| 0 <= j < at implies (#[trigger] list[j]).time < time by {
            assert(!p(list[j]));
        }
        assert forall|i: int, j: int| 0 <= i < j < next.len() implies next[i].time
            < next[j].time by {
            if i < at {
                assert(next[i] == list[i]);
            } else if i > at {
                assert(next[i] == list[i - 1]);
            }
            if j < at {
                assert(next[j] == list[j]);
            } else if j > at {
                assert(next[j] == list[j - 1]);
            }
        }
        assert forall|i: int| 0 <= i < next.len() implies 0 < (#[trigger] next[i]).time < DAY
            && next[i].color_index < COLORS by {
            if i < at {
                assert(next[i] == list[i]);
            } else if i > at {
                assert(next[i] == list[i - 1]);
            }
        }
    }
}

/// Whatever is added to a roster, and in whatever order, its alarms stay in
/// the order of their times.
pub proof fn lemma_adds_keep_order(list: Seq<AlarmView>, inputs: Seq<Seq<char>>)
    requires
        roster_wf(list),
    ensures
        roster_wf(added_all(list, inputs)),
        ordered(added_all(list, inputs)),
    decreases inputs.len(),
{
    if inputs.len() > 0 {
        lemma_added_wf(list, inputs[0]);
        let next = match added(list, inputs[0]) {
            Ok(next) => next,
            Err(_) => list,
        };
        lemma_adds_keep_order(next, inputs.drop_first());
    }
}


/// The time left until the next alarm, and the cell where it is shown once
/// that is known.
#[derive(Clone, Copy, Debug)]
pub struct Countdown {
    pub value: u32,
    pub position: Option<Position>,
}

/// The cell where the countdown to the alarm at `index` stands, in a roster
/// scrolled by `offset` whose label at `index` takes `label_width` columns.
///
/// It stands right of the label, in the row of the alarm. An alarm that is
/// out of sight above has it beside the first row of the roster, and one out
/// of sight below beside the row under the last that the roster shows.
pub open spec fn placed(layout: Layout, label_width: nat, offset: nat, index: nat) -> Position {
    let above = offset > 0 && index <= offset;
    let row: int = if above {
        layout.roster.line as int
    } else {
        layout.roster.line + index - offset
    };
    if row > layout.roster_height + 2 {
        Position {
            line: (layout.roster.line + layout.roster_height) as u16,
            col: (layout.roster.col + 6) as u16,
        }
    } else if above {
        Position { line: layout.roster.line, col: (layout.roster.col + 6) as u16 }
    } else {
        Position { line: row as u16, col: column(layout.roster.col + 3 + label_width) }
    }
}

/// The text of a countdown of `value` seconds: minutes and seconds, with the
/// hours before them from one hour on. At one second below the hour three
/// blanks follow, which wipe what the hours left behind.
pub open spec fn countdown_text(value: u32) -> Seq<char> {
    if value < 3600 {
        seq!['(', '-'] + two_digits(((value / 60) % 60) as nat) + seq![':'] + two_digits(
            (value % 60) as nat,
        ) + seq![')'] + (if value == 3599 {
            seq![' ', ' ', ' ']
        } else {
            Seq::empty()
        })
    } else {
        seq!['(', '-'] + two_digits((value / 3600) as nat) + seq![':'] + two_digits(
            ((value / 60) % 60) as nat,
        ) + seq![':'] + two_digits((value % 60) as nat) + seq![')']
    }
}

impl Countdown {
    /// A countdown of nothing, without a place.
    pub fn new() -> (countdown: Countdown)
        ensures
            countdown == (Countdown { value: 0, position: None }),
    {
        Countdown { value: 0, position: None }
    }

    /// Forgets the value and the place.
    pub fn reset(&mut self)
        ensures
            *final(self) == (Countdown { value: 0, position: None }),
    {
        self.value = 0;
        self.position = None;
    }

    /// Sets the seconds that are left.
    pub fn set(&mut self, value: u32)
        ensures
            *final(self) == (Countdown { value, ..*old(self) }),
    {
        self.value = value;
    }

    /// Whether the countdown has a place.
    pub fn has_position(&self) -> (r: bool)
        ensures
            r == self.position is Some,
    {
        self.position.is_some()
    }

    /// The countdown as a piece of text at its place; nothing while it has no
    /// place.
    pub fn draw(&self) -> (piece: Option<Piece>)
        ensures
            self.position is None ==> piece is None,
            self.position matches Some(position) ==> piece is Some && piece->0@ == (PieceView {
                position,
                style: Style::Countdown,
                text: countdown_text(self.value),
            }),
    {
        match self.position {
            None => None,
            Some(position) => {
                let mut text = String::new();
                push_char(&mut text, '(');
                push_char(&mut text, '-');
                if self.value >= 3600 {
                    push_two_digits(&mut text, self.value / 3600);
                    push_char(&mut text, ':');
                }
                push_two_digits(&mut text, (self.value / 60) % 60);
                push_char(&mut text, ':');
                push_two_digits(&mut text, self.value % 60);
                push_char(&mut text, ')');
                if self.value == 3599 {
                    push_char(&mut text, ' ');
                    push_char(&mut text, ' ');
                    push_char(&mut text, ' ');
                }
                assert(text@ == countdown_text(self.value));
                Some(Piece { position, style: Style::Countdown, text })
            },
        }
    }

    /// Places the countdown beside the alarm at `index`, whose label takes
    /// `label_width` columns, in a roster scrolled by `offset`.
    pub fn place_at(&mut self, layout: &Layout, label_width: usize, offset: usize, index: usize)
        requires
            layout.wf(),
        ensures
            *final(self) == (Countdown {
                position: Some(placed(*layout, label_width as nat, offset as nat, index as nat)),
                ..*old(self)
            }),
    {
        let above = offset > 0 && index <= offset;
        let row: u128 = if above {
            layout.roster.line as u128
        } else {
            layout.roster.line as u128 + index as u128 - offset as u128
        };
        let position = if row > layout.roster_height as u128 + 2 {
            Position { line: layout.roster.line + layout.roster_height, col: layout.roster.col + 6 }
        } else if above {
            Position { line: layout.roster.line, col: layout.roster.col + 6 }
        } else {
            let col: u16 = if label_width > 0xffff {
                0xffff
            } else {
                column_of(layout.roster.col as u32 + 3 + label_width as u32)
            };
            Position { line: row as u16, col }
        };
        self.position = Some(position);
    }

    /// Places the countdown beside `alarm`, which stands at `index` in a
    /// roster scrolled by `offset`.
    pub fn place(&mut self, layout: &Layout, alarm: &Alarm, offset: usize, index: usize)
        requires
            layout.wf(),
        ensures
            *final(self) == (Countdown {
                position: Some(
                    placed(*layout, display_width(alarm.label@), offset as nat, index as nat),
                ),
                ..*old(self)
            }),
    {
        let label_width = width_of(alarm.label.as_str());
        self.place_at(layout, label_width, offset, index);
    }
}


/// Tells the alarms that are due at `elapsed`: those whose time has come
/// and that were not raised yet.
pub open spec fn is_due(elapsed: u32) -> spec_fn(AlarmView) -> bool {
    |a: AlarmView| !a.exceeded && a.time <= elapsed
}

/// Tells the alarms that are still to come at `elapsed`.
pub open spec fn is_ahead(elapsed: u32) -> spec_fn(AlarmView) -> bool {
    |a: AlarmView| !a.exceeded && a.time > elapsed
}

/// Tells the alarms whose time has come at `elapsed`, raised or not.
pub open spec fn is_past(elapsed: u32) -> spec_fn(AlarmView) -> bool {
    |a: AlarmView| a.time <= elapsed
}

/// `list` with every alarm marked whose time has come at `elapsed`.
pub open spec fn raised(list: Seq<AlarmView>, elapsed: u32) -> Seq<AlarmView> {
    list.map_values(
        |a: AlarmView|
            if a.time <= elapsed {
                AlarmView { exceeded: true, ..a }
            } else {
                a
            },
    )
}

/// `list` with every alarm marked by its time alone: as passed where its time
/// has come at `elapsed`, and as waiting where it has not.
pub open spec fn travelled(list: Seq<AlarmView>, elapsed: u32) -> Seq<AlarmView> {
    list.map_values(|a: AlarmView| AlarmView { exceeded: a.time <= elapsed, ..a })
}

/// `list` with every alarm waiting for its time.
pub open spec fn rearmed(list: Seq<AlarmView>) -> Seq<AlarmView> {
    list.map_values(|a: AlarmView| AlarmView { exceeded: false, ..a })
}

/// The colour of the clock after the alarms that are due were raised: that of
/// the last of them, or the one it had where none is due.
pub open spec fn checked_color(list: Seq<AlarmView>, clock: Clock) -> Option<usize> {
    let last = last_index(list, is_due(clock.elapsed));
    if last >= 0 {
        Some(list[last].color_index)
    } else {
        clock.color_index
    }
}

/// The countdown after the alarms that are due were raised.
///
/// Raising an alarm resets it. If an alarm is still to come, its value is the
/// time left to the first of them; and it is placed beside that alarm if it
/// has no place or `force_redraw` asks for a new one.
pub open spec fn checked_countdown(
    list: Seq<AlarmView>,
    elapsed: u32,
    layout: Layout,
    countdown: Countdown,
    offset: usize,
    force_redraw: bool,
) -> Countdown {
    let base = if first_index(list, is_due(elapsed)) < list.len() {
        Countdown { value: 0, position: None }
    } else {
        countdown
    };
    let next = first_index(list, is_ahead(elapsed));
    if next < list.len() {
        Countdown {
            value: (list[next].time - elapsed) as u32,
            position: if base.position is None || force_redraw {
                Some(placed(layout, display_width(list[next].label), offset as nat, next as nat))
            } else {
                base.position
            },
        }
    } else {
        base
    }
}

/// The alarms beyond what a roster of `height` rows shows.
pub open spec fn excess(count: nat, height: u16) -> nat {
    if count > height {
        (count - height) as nat
    } else {
        0
    }
}

/// The least of two numbers.
pub open spec fn least(a: int, b: int) -> int {
    if a <= b {
        a
    } else {
        b
    }
}

/// The columns of the widest label of `list`.
pub open spec fn longest(list: Seq<AlarmView>) -> nat
    decreases list.len(),
{
    if list.len() == 0 {
        0
    } else {
        let rest = longest(list.drop_last());
        let width = display_width(list.last().label);
        if width > rest {
            width
        } else {
            rest
        }
    }
}

/// The columns that a roster of `count` alarms takes whose widest label
/// takes `longest`: four more than the label, and none for an empty roster.
pub open spec fn panel_width(longest: nat, count: nat) -> u16 {
    if count == 0 {
        0
    } else {
        capped(longest + 4)
    }
}

/// The columns that a roster of `count` alarms takes whose widest label
/// takes `longest`.
pub fn panel(longest: usize, count: usize) -> (w: u16)
    ensures
        w == panel_width(longest as nat, count as nat),
{
    if count == 0 {
        0
    } else if longest > 0xffff - 4 {
        0xffff
    } else {
        cap(longest + 4)
    }
}

/// Whether a line of a list of alarms describes an alarm: it is no comment,
/// which begins with `#`, and holds more than white space.
pub open spec fn is_entry(line: Seq<char>) -> bool {
    !(line.len() > 0 && line[0] == '#') && trim(line).len() > 0
}

/// The message for a line that was refused.
pub open spec fn refusal(line: Seq<char>, e: ErrorKind) -> Seq<char> {
    "Value \""@ + line + "\": "@ + e.text()
}

/// What adding `lines` one after the other makes of `list`, and the message
/// for the first line that is refused, where one is. No line after that one
/// is looked at.
pub open spec fn loaded(list: Seq<AlarmView>, lines: Seq<Seq<char>>) -> (
    Seq<AlarmView>,
    Option<Seq<char>>,
)
    decreases lines.len(),
{
    if lines.len() == 0 {
        (list, None)
    } else if !is_entry(lines[0]) {
        loaded(list, lines.drop_first())
    } else {
        match added(list, lines[0]) {
            Ok(next) => loaded(next, lines.drop_first()),
            Err(e) => (list, Some(refusal(lines[0], e))),
        }
    }
}

/// The alarms in the order of their times, the number of alarms that are
/// scrolled out of sight at the top, and whether the hint on scrolling was
/// shown.
pub struct AlarmRoster {
    list: Vec<Alarm>,
    offset: usize,
    hints_shown: bool,
}

impl AlarmRoster {
    /// The alarms, the earliest first.
    pub closed spec fn view(&self) -> Seq<AlarmView> {
        self.list.deep_view()
    }

    /// The number of alarms scrolled out of sight at the top.
    pub closed spec fn scroll_offset(&self) -> usize {
        self.offset
    }

    /// Whether the hint on scrolling was shown.
    pub closed spec fn hinted(&self) -> bool {
        self.hints_shown
    }

    /// The alarms are in the order of their times, no two at one time, each
    /// within the day.
    pub open spec fn wf(&self) -> bool {
        roster_wf(self@)
    }

    /// A roster without alarms.
    pub fn new() -> (roster: AlarmRoster)
        ensures
            roster.wf(),
            roster@ == Seq::<AlarmView>::empty(),
            roster.scroll_offset() == 0,
            !roster.hinted(),
    {
        let roster = AlarmRoster { list: Vec::new(), offset: 0, hints_shown: false };
        assert(roster@ == Seq::<AlarmView>::empty());
        roster
    }

    /// The number of alarms.
    pub fn len(&self) -> (n: usize)
        ensures
            n == self@.len(),
    {
        self.list.len()
    }

    /// The alarm at `index`, counted from the earliest.
    pub fn get(&self, index: usize) -> (alarm: Option<&Alarm>)
        ensures
            index >= self@.len() ==> alarm is None,
            index < self@.len() ==> alarm is Some && alarm->0@ == self@[index as int],
    {
        if index < self.list.len() {
            Some(&self.list[index])
        } else {
            None
        }
    }

    /// The number of alarms scrolled out of sight at the top.
    pub fn offset(&self) -> (n: usize)
        ensures
            n == self.scroll_offset(),
    {
        self.offset
    }

    /// Reads `input` as a time and a label, and adds the alarm at its place.
    ///
    /// The time stands before the first `/`, as up to three numbers between
    /// colons: hours, minutes and seconds, the seconds last. The label
    /// follows the `/`. A text that is refused changes nothing.
    pub fn add(&mut self, input: &String) -> (r: Result<(), ErrorKind>)
        requires
            old(self).wf(),
        ensures
            final(self).wf(),
            final(self).scroll_offset() == old(self).scroll_offset(),
            final(self).hinted() == old(self).hinted(),
            match added(old(self)@, input@) {
                Ok(list) => r is Ok && final(self)@ == list,
                Err(e) => r == Err::<(), ErrorKind>(e) && final(self)@ == old(self)@,
            },
    {
        let chars = chars_of(input.as_str());
        let n = chars.len();
        assert(chars@.subrange(0, n as int) == input@);
        let cut = find_char(&chars, 0, n, DELIMITER);
        let mut label = String::new();
        if cut < n {
            label = text_of(&chars, cut + 1, n);
            assert(chars@.subrange(cut + 1, n as int) == input@.skip(cut + 1));
            grapheme_truncate(&mut label, LABEL_SIZE_LIMIT, ELLIPSIS);
        }
        assert(label@ == label_text(input@));
        let lo = skip_space(&chars, 0, cut);
        let hi = drop_space(&chars, lo, cut);
        assert(chars@.subrange(0, cut as int) == input@.take(cut as int));
        assert(chars@.subrange(lo as int, hi as int) == time_text(input@));
        let total = match parse_time(&chars, lo, hi) {
            Ok(total) => total,
            Err(e) => {
                return Err(e);
            },
        };
        if total == 0 {
            return Err(ErrorKind::ZeroDuration);
        }
        if total >= DAY as u64 {
            return Err(ErrorKind::OutOfRange);
        }
        let time: u32 = total as u32;
        assert(alarm_time(input@) == Ok::<u32, ErrorKind>(time));

        let count = self.list.len();
        let ghost list = self@;
        let ghost p = |a: AlarmView| a.time >= time;
        let mut at: usize = 0;
        while at < count && self.list[at].time < time
            invariant
                at <= count == self.list@.len(),
                list == self@,
                p == |a: AlarmView| a.time >= time,
                forall|j: int| 0 <= j < at ==> !p(#[trigger] list[j]),
            decreases count - at,
        {
            at += 1;
        }
        proof {
            lemma_first_index_is(list, p, at as int);
            lemma_added_wf(list, input@);
        }
        if at < count && self.list[at].time == time {
            assert(list[at as int].time == time);
            return Err(ErrorKind::Duplicate);
        }
        assert(!has_time(list, time)) by {
            assert forall|j: int| 0 <= j < list.len() implies (#[trigger] list[j]).time
                != time by {
                if j < at {
                    assert(!p(list[j]));
                } else {
                    assert(list[j].time >= list[at as int].time);
                }
            }
        }
        let alarm = Alarm { label, time, color_index: count % COLORS, exceeded: false };
        assert(alarm@ == new_alarm(input@, time, list.len()));
        self.list.insert(at, alarm);
        assert(self@ == list.insert(at as int, alarm@));
        Ok(())
    }

    /// Takes the last alarm off the roster, which is the latest.
    pub fn pop(&mut self) -> (r: Option<Alarm>)
        requires
            old(self).wf(),
        ensures
            final(self).wf(),
            final(self).scroll_offset() == old(self).scroll_offset(),
            final(self).hinted() == old(self).hinted(),
            old(self)@.len() == 0 ==> r is None && final(self)@ == old(self)@,
            old(self)@.len() > 0 ==> r is Some && r->0@ == old(self)@.last(),
            old(self)@.len() > 0 ==> final(self)@ == old(self)@.drop_last(),
    {
        let r = self.list.pop();
        assert(self@ == if old(self)@.len() > 0 {
            old(self)@.drop_last()
        } else {
            old(self)@
        });
        r
    }

    /// Brings the scrolling back to what the roster has beyond its rows.
    pub fn adjust_offset(&mut self, layout: &Layout)
        ensures
            final(self)@ == old(self)@,
            final(self).hinted() == old(self).hinted(),
            final(self).scroll_offset() == least(
                old(self).scroll_offset() as int,
                excess(old(self)@.len(), layout.roster_height) as int,
            ),
    {
        let beyond = self.list.len().saturating_sub(layout.roster_height as usize);
        if beyond < self.offset {
            self.offset = beyond;
        }
    }

    /// Whether every alarm was raised. A roster without alarms is idle.
    pub fn idle(&self) -> (r: bool)
        ensures
            r == forall|i: int| 0 <= i < self@.len() ==> (#[trigger] self@[i]).exceeded,
    {
        let mut i: usize = 0;
        while i < self.list.len()
            invariant
                i <= self.list@.len(),
                forall|j: int| 0 <= j < i ==> (#[trigger] self@[j]).exceeded,
            decreases self.list@.len() - i,
        {
            if !self.list[i].exceeded {
                assert(!self@[i as int].exceeded);
                return false;
            }
            i += 1;
        }
        true
    }

    /// Scrolls the roster up by one alarm.
    pub fn scroll_up(&mut self, layout: &Layout)
        ensures
            final(self)@ == old(self)@,
            final(self).hinted() == old(self).hinted(),
            final(self).scroll_offset() == least(
                excess(old(self)@.len(), layout.roster_height) as int,
                if old(self).scroll_offset() == 0 {
                    0
                } else {
                    old(self).scroll_offset() - 1
                },
            ),
    {
        let beyond = self.list.len().saturating_sub(layout.roster_height as usize);
        let wanted = self.offset.saturating_sub(1);
        self.offset = if beyond < wanted {
            beyond
        } else {
            wanted
        };
    }

    /// Scrolls the roster down by one alarm.
    pub fn scroll_down(&mut self, layout: &Layout)
        ensures
            final(self)@ == old(self)@,
            final(self).hinted() == old(self).hinted(),
            final(self).scroll_offset() == least(
                excess(old(self)@.len(), layout.roster_height) as int,
                old(self).scroll_offset() + 1,
            ),
    {
        let beyond = self.list.len().saturating_sub(layout.roster_height as usize);
        let wanted = self.offset.saturating_add(1);
        self.offset = if beyond < wanted {
            beyond
        } else {
            wanted
        };
    }

    /// Raises the alarms that are due at the time of `clock`.
    ///
    /// Each of them is marked, gives the clock its colour and resets the
    /// countdown. Then the countdown is set to the first alarm that is still
    /// to come. The first alarm that was raised is returned.
    pub fn check(
        &mut self,
        clock: &mut Clock,
        layout: &Layout,
        countdown: &mut Countdown,
        force_redraw: bool,
    ) -> (r: Option<Alarm>)
        requires
            old(self).wf(),
            layout.wf(),
        ensures
            final(self).wf(),
            final(self).scroll_offset() == old(self).scroll_offset(),
            final(self).hinted() == old(self).hinted(),
            final(self)@ == raised(old(self)@, old(clock).elapsed),
            *final(clock) == (Clock {
                color_index: checked_color(old(self)@, *old(clock)),
                ..*old(clock)
            }),
            *final(countdown) == checked_countdown(
                old(self)@,
                old(clock).elapsed,
                *layout,
                *old(countdown),
                old(self).scroll_offset(),
                force_redraw,
            ),
            ({
                let first = first_index(old(self)@, is_due(old(clock).elapsed));
                &&& r is Some <==> first < old(self)@.len()
                &&& r matches Some(alarm) ==> alarm@ == (AlarmView {
                    exceeded: true,
                    ..old(self)@[first]
                })
            }),
    {
        let elapsed = clock.elapsed;
        let count = self.list.len();
        let ghost list = self@;
        let ghost due = is_due(elapsed);
        let ghost ahead = is_ahead(elapsed);
        let ghost first: int = count as int;
        let ghost last: int = -1;
        let mut r: Option<Alarm> = None;
        let mut stop = false;
        let mut i: usize = 0;
        while i < count && !stop
            invariant
                i <= count == self.list@.len() == list.len(),
                list == old(self)@,
                elapsed == old(clock).elapsed,
                due == is_due(elapsed),
                ahead == is_ahead(elapsed),
                self.offset == old(self).offset,
                self.hints_shown == old(self).hints_shown,
                forall|j: int|
                    0 <= j < i ==> (#[trigger] self.list@[j])@ == raised(list, elapsed)[j],
                forall|j: int| i <= j < count ==> (#[trigger] self.list@[j])@ == list[j],
                forall|j: int| 0 <= j < i ==> !ahead(#[trigger] list[j]),
                stop ==> i < count && ahead(list[i as int]),
                r is None <==> first == count,
                r is None ==> last == -1 && *clock == *old(clock) && *countdown == *old(countdown),
                r is None ==> forall|j: int| 0 <= j < i ==> !due(#[trigger] list[j]),
                r matches Some(alarm) ==> {
                    &&& 0 <= first <= last < i
                    &&& due(list[first])
                    &&& due(list[last])
                    &&& alarm@ == (AlarmView { exceeded: true, ..list[first] })
                    &&& forall|j: int| 0 <= j < first ==> !due(#[trigger] list[j])
                    &&& forall|j: int| last < j < i ==> !due(#[trigger] list[j])
                    &&& *clock == (Clock {
                        color_index: Some(list[last].color_index),
                        ..*old(clock)
                    })
                    &&& *countdown == (Countdown { value: 0, position: None })
                },
            decreases count - i + (if stop { 0int } else { 1int }),
        {
            if self.list[i].exceeded {
                i += 1;
            } else if self.list[i].time <= elapsed {
                self.list[i].exceeded = true;
                clock.color_index = Some(self.list[i].color_index);
                countdown.reset();
                if r.is_none() {
                    r = Some(self.list[i].duplicate());
                    proof {
                        first = i as int;
                    }
                }
                proof {
                    last = i as int;
                }
                i += 1;
            } else {
                stop = true;
            }
        }
        proof {
            lemma_first_index_is(list, due, first);
            lemma_last_index_is(list, due, last);
            lemma_first_index_is(list, ahead, i as int);
            assert forall|j: int| 0 <= j < count implies (#[trigger] self.list@[j])@ == raised(
                list,
                elapsed,
            )[j] by {
                if j >= i {
                    assert(list[j].time >= list[i as int].time);
                }
            }
            assert(self@ == raised(list, elapsed));
        }
        if stop {
            countdown.set(self.list[i].time - elapsed);
            if !countdown.has_position() || force_redraw {
                countdown.place(layout, &self.list[i], self.offset, i);
            }
        }
        r
    }

    /// The columns that the roster takes: four more than the widest of its
    /// labels, and none if it has no alarm.
    pub fn width(&self) -> (w: u16)
        ensures
            w == panel_width(longest(self@), self@.len()),
    {
        let mut widest: usize = 0;
        let mut i: usize = 0;
        while i < self.list.len()
            invariant
                i <= self.list@.len(),
                widest == longest(self@.take(i as int)),
            decreases self.list@.len() - i,
        {
            let width = width_of(self.list[i].label.as_str());
            proof {
                let head = self@.take(i + 1);
                assert(head.drop_last() == self@.take(i as int));
                assert(head.last().label == self.list@[i as int].label@);
            }
            if width > widest {
                widest = width;
            }
            i += 1;
        }
        assert(self@.take(i as int) == self@);
        panel(widest, self.list.len())
    }

    /// Makes every alarm wait for its time again.
    pub fn reset_all(&mut self)
        requires
            old(self).wf(),
        ensures
            final(self).wf(),
            final(self).scroll_offset() == old(self).scroll_offset(),
            final(self).hinted() == old(self).hinted(),
            final(self)@ == rearmed(old(self)@),
    {
        let count = self.list.len();
        let mut i: usize = 0;
        while i < count
            invariant
                i <= count == self.list@.len() == old(self)@.len(),
                self.offset == old(self).offset,
                self.hints_shown == old(self).hints_shown,
                forall|j: int|
                    0 <= j < i ==> (#[trigger] self.list@[j])@ == rearmed(old(self)@)[j],
                forall|j: int| i <= j < count ==> (#[trigger] self.list@[j])@ == old(self)@[j],
            decreases count - i,
        {
            self.list[i].exceeded = false;
            i += 1;
        }
        assert(self@ == rearmed(old(self)@));
    }

    /// Marks every alarm by its time alone, whatever it was marked as: as
    /// passed where its time has come at the time of `clock`, as waiting where
    /// it has not. The clock takes the colour of the latest alarm whose time
    /// has come, or none.
    pub fn time_travel(&mut self, clock: &mut Clock)
        requires
            old(self).wf(),
        ensures
            final(self).wf(),
            final(self).scroll_offset() == old(self).scroll_offset(),
            final(self).hinted() == old(self).hinted(),
            final(self)@ == travelled(old(self)@, old(clock).elapsed),
            *final(clock) == (Clock {
                color_index: ({
                    let last = last_index(old(self)@, is_past(old(clock).elapsed));
                    if last >= 0 {
                        Some(old(self)@[last].color_index)
                    } else {
                        None
                    }
                }),
                ..*old(clock)
            }),
    {
        let elapsed = clock.elapsed;
        let count = self.list.len();
        let ghost list = self@;
        let ghost past = is_past(elapsed);
        let ghost last: int = -1;
        clock.color_index = None;
        let mut i: usize = 0;
        while i < count
            invariant
                i <= count == self.list@.len() == list.len(),
                list == old(self)@,
                elapsed == old(clock).elapsed,
                past == is_past(elapsed),
                self.offset == old(self).offset,
                self.hints_shown == old(self).hints_shown,
                forall|j: int|
                    0 <= j < i ==> (#[trigger] self.list@[j])@ == travelled(list, elapsed)[j],
                forall|j: int| i <= j < count ==> (#[trigger] self.list@[j])@ == list[j],
                -1 <= last < i,
                last >= 0 ==> past(list[last]),
                forall|j: int| last < j < i ==> !past(#[trigger] list[j]),
                *clock == (Clock {
                    color_index: if last >= 0 {
                        Some(list[last].color_index)
                    } else {
                        None
                    },
                    ..*old(clock)
                }),
            decreases count - i,
        {
            if self.list[i].time <= elapsed {
                self.list[i].exceeded = true;
                clock.color_index = Some(self.list[i].color_index);
                proof {
                    last = i as int;
                }
            } else {
                self.list[i].exceeded = false;
            }
            i += 1;
        }
        proof {
            lemma_last_index_is(list, past, last);
            assert(self@ == travelled(list, elapsed));
        }
    }

    /// Adds the alarms that `lines` describe, one line each. Comments, which
    /// begin with `#`, and lines of white space are passed over. The first
    /// line that is refused ends the reading, and its message is returned.
    pub fn from_stdin(&mut self, lines: &Vec<String>) -> (r: Result<(), String>)
        requires
            old(self).wf(),
        ensures
            final(self).wf(),
            final(self).scroll_offset() == old(self).scroll_offset(),
            final(self).hinted() == old(self).hinted(),
            final(self)@ == loaded(old(self)@, lines.deep_view()).0,
            match loaded(old(self)@, lines.deep_view()).1 {
                None => r is Ok,
                Some(message) => r is Err && r->Err_0@ == message,
            },
    {
        let ghost all = lines.deep_view();
        let mut i: usize = 0;
        assert(all.skip(0) == all);
        while i < lines.len()
            invariant
                i <= lines.len(),
                all == lines.deep_view(),
                self.wf(),
                self.offset == old(self).offset,
                self.hints_shown == old(self).hints_shown,
                loaded(self@, all.skip(i as int)) == loaded(old(self)@, all),
            decreases lines.len() - i,
        {
            let line = &lines[i];
            let ghost rest = all.skip(i as int);
            assert(rest[0] == line@);
            assert(rest.drop_first() == all.skip(i + 1));
            let chars = chars_of(line.as_str());
            assert(chars@.subrange(0, chars.len() as int) == line@);
            let lo = skip_space(&chars, 0, chars.len());
            let hi = drop_space(&chars, lo, chars.len());
            let comment = chars.len() > 0 && chars[0] == '#';
            if !comment && lo < hi {
                assert(is_entry(line@));
                match self.add(line) {
                    Ok(()) => {},
                    Err(e) => {
                        let mut message = String::new();
                        push_text(&mut message, "Value \"");
                        push_text(&mut message, line.as_str());
                        push_text(&mut message, "\": ");
                        push_text(&mut message, e.message());
                        assert(message@ == refusal(line@, e));
                        return Err(message);
                    },
                }
            } else {
                assert(!is_entry(line@));
            }
            i += 1;
        }
        assert(all.skip(i as int).len() == 0);
        Ok(())
    }
}


/// The row of the roster that stands for the alarms out of sight below: the
/// one after the rows of the roster, and at least the one after the row that
/// stands for the alarms out of sight above.
pub open spec fn last_row(offset: usize, height: u16) -> int {
    if offset > 0 && height == 0 {
        1
    } else {
        height as int
    }
}

/// The number of rows that a roster of `count` alarms takes when it is
/// scrolled by `offset` and has `height` rows for its alarms.
pub open spec fn row_count(count: nat, offset: usize, height: u16) -> int {
    least(count - offset, last_row(offset, height) + 1)
}

/// The row `i` of the roster.
///
/// The first row of a scrolled roster stands for the alarms above it. The
/// row after the last stands for the alarms below, and holds the hint on
/// scrolling until that was shown once. Every other row holds the label of
/// its alarm.
pub open spec fn row(
    list: Seq<AlarmView>,
    offset: usize,
    layout: Layout,
    hinted: bool,
    i: int,
) -> PieceView {
    let position = Position { line: (layout.roster.line + i) as u16, col: layout.roster.col };
    if offset > 0 && i == 0 {
        PieceView { position, style: Style::Hint, text: "[ ^ ]"@ }
    } else if i == last_row(offset, layout.roster_height) {
        PieceView {
            position,
            style: Style::Hint,
            text: if hinted {
                "[ v ]"@
            } else {
                "[ v ] [Page Up/Down]"@
            },
        }
    } else {
        let alarm = list[offset + i];
        PieceView {
            position,
            style: if alarm.exceeded {
                Style::Exceeded(alarm.color_index)
            } else {
                Style::Pending(alarm.color_index)
            },
            text: alarm.label,
        }
    }
}

/// The rows of the roster, from the top.
pub open spec fn rows(list: Seq<AlarmView>, offset: usize, layout: Layout, hinted: bool) -> Seq<
    PieceView,
> {
    Seq::new(
        row_count(list.len(), offset, layout.roster_height) as nat,
        |i: int| row(list, offset, layout, hinted, i),
    )
}

impl AlarmRoster {
    /// The roster as pieces of text, one for each row, after the scrolling
    /// was brought back to what the roster has beyond its rows.
    pub fn draw(&mut self, layout: &Layout) -> (frame: Vec<Piece>)
        requires
            old(self).wf(),
            layout.wf(),
        ensures
            final(self).wf(),
            final(self)@ == old(self)@,
            final(self).scroll_offset() == least(
                old(self).scroll_offset() as int,
                excess(old(self)@.len(), layout.roster_height) as int,
            ),
            frame.deep_view() == rows(
                old(self)@,
                final(self).scroll_offset(),
                *layout,
                old(self).hinted(),
            ),
            final(self).hinted() == (old(self).hinted() || row_count(
                old(self)@.len(),
                final(self).scroll_offset(),
                layout.roster_height,
            ) > last_row(final(self).scroll_offset(), layout.roster_height)),
    {
        self.adjust_offset(layout);
        let count = self.list.len();
        let offset = self.offset;
        let height = layout.roster_height as usize;
        let hinted = self.hints_shown;
        let ghost list = self@;
        let ghost last = last_row(offset, layout.roster_height);
        let mut frame: Vec<Piece> = Vec::new();
        let mut done = false;
        let mut i: usize = 0;
        while offset + i < count && !done
            invariant
                offset <= count == self.list@.len(),
                offset == self.offset,
                height == layout.roster_height,
                layout.wf(),
                list == self@,
                last == last_row(offset, layout.roster_height),
                i <= last + 1,
                offset + i <= count,
                done <==> i == last + 1,
                self.hints_shown == (hinted || done),
                frame.deep_view() == Seq::new(
                    i as nat,
                    |k: int| row(list, offset, *layout, hinted, k),
                ),
            decreases count - offset - i + (if done { 0int } else { 1int }),
        {
            let position = Position { line: layout.roster.line + i as u16, col: layout.roster.col };
            let ghost before = frame.deep_view();
            let mut text = String::new();
            let style = if offset > 0 && i == 0 {
                push_text(&mut text, "[ ^ ]");
                Style::Hint
            } else if i >= height {
                push_text(&mut text, "[ v ]");
                if !self.hints_shown {
                    self.hints_shown = true;
                    text = String::new();
                    push_text(&mut text, "[ v ] [Page Up/Down]");
                }
                done = true;
                Style::Hint
            } else {
                let alarm = &self.list[offset + i];
                text = alarm.label.clone();
                assert(list[offset + i] == alarm@);
                if alarm.exceeded {
                    Style::Exceeded(alarm.color_index)
                } else {
                    Style::Pending(alarm.color_index)
                }
            };
            let piece = Piece { position, style, text };
            assert(piece@ == row(list, offset, *layout, hinted, i as int));
            frame.push(piece);
            i += 1;
            assert(frame.deep_view() == before.push(piece@));
            assert(frame.deep_view() == Seq::new(
                i as nat,
                |k: int| row(list, offset, *layout, hinted, k),
            ));
        }
        assert(self@ == old(self)@);
        frame
    }
}


/// Once the alarms that are due were raised, none is due any more: an alarm
/// is handed out at most once.
pub proof fn lemma_none_due_after_check(list: Seq<AlarmView>, elapsed: u32)
    ensures
        first_index(raised(list, elapsed), is_due(elapsed)) == list.len(),
        raised(raised(list, elapsed), elapsed) == raised(list, elapsed),
{
    let after = raised(list, elapsed);
    assert forall|j: int| 0 <= j < after.len() implies !is_due(elapsed)(#[trigger] after[j]) by {}
    lemma_first_index_is(after, is_due(elapsed), after.len() as int);
    assert(raised(after, elapsed) =~= after);
}

/// An alarm whose time is exactly the time of the clock, and before which no
/// alarm waits, is the one that is handed out; it is marked, and it is not
/// handed out again.
pub proof fn lemma_raised_at_its_time(list: Seq<AlarmView>, elapsed: u32, i: int)
    requires
        roster_wf(list),
        0 <= i < list.len(),
        list[i].time == elapsed,
        !list[i].exceeded,
        forall|j: int| 0 <= j < i ==> (#[trigger] list[j]).exceeded,
    ensures
        first_index(list, is_due(elapsed)) == i,
        raised(list, elapsed)[i] == (AlarmView { exceeded: true, ..list[i] }),
        first_index(raised(list, elapsed), is_due(elapsed)) == list.len(),
{
    assert forall|j: int| 0 <= j < i implies !is_due(elapsed)(#[trigger] list[j]) by {}
    lemma_first_index_is(list, is_due(elapsed), i);
    lemma_none_due_after_check(list, elapsed);
}

/// Whether two lists hold the same alarms, whatever they are marked as.
pub open spec fn same_alarms(list: Seq<AlarmView>, other: Seq<AlarmView>) -> bool {
    &&& list.len() == other.len()
    &&& forall|i: int|
        0 <= i < list.len() ==> (AlarmView { exceeded: false, ..#[trigger] list[i] }) == (AlarmView {
            exceeded: false,
            ..other[i]
        })
}

/// Setting the clock marks each alarm by its time alone: what the alarms
/// were marked as before makes no difference, and doing it again at the same
/// time changes nothing.
pub proof fn lemma_time_travel(list: Seq<AlarmView>, other: Seq<AlarmView>, elapsed: u32)
    requires
        same_alarms(list, other),
    ensures
        travelled(list, elapsed) == travelled(other, elapsed),
        travelled(travelled(list, elapsed), elapsed) == travelled(list, elapsed),
        forall|i: int|
            0 <= i < list.len() ==> (#[trigger] travelled(list, elapsed)[i]).exceeded == (
            list[i].time <= elapsed),
{
    assert forall|i: int| 0 <= i < list.len() implies travelled(list, elapsed)[i] == travelled(
        other,
        elapsed,
    )[i] by {
        let a = AlarmView { exceeded: false, ..list[i] };
        let b = AlarmView { exceeded: false, ..other[i] };
        assert(a == b);
        assert(list[i].time == a.time && other[i].time == b.time);
        assert(list[i].label == a.label && other[i].label == b.label);
        assert(list[i].color_index == a.color_index && other[i].color_index == b.color_index);
    }
    assert(travelled(list, elapsed) =~= travelled(other, elapsed));
    assert(travelled(travelled(list, elapsed), elapsed) =~= travelled(list, elapsed));
}

} // verus!
