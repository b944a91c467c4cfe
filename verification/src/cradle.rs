//! The commands to run when an alarm is raised, and the processes that run
//! them.
//!
//! The cradle decides what to start and what to wait for. Starting a process
//! and asking whether it has ended is left to the caller, who reports back.

use crate::text::chars_of;
use crate::text::push_char;
use crate::text::push_two_digits;
use crate::text::replace;
use crate::text::replaced;
use crate::text::two_digits;
use vstd::prelude::*;

verus! {

/// What was found when a process was asked whether it has ended.
#[derive(Clone, Copy, Debug, PartialEq, Eq, Structural)]
pub enum ChildState {
    /// It has not ended.
    Running,
    /// It has ended well.
    Succeeded,
    /// It has ended with a fault.
    Failed,
    /// It could not be asked.
    Lost,
}

/// The state of the splitting of a command line into words: the words that
/// are complete, the word that is being read, whether a quotation is open,
/// and whether the character before was a backslash that escapes the next.
pub struct Scan {
    pub words: Seq<Seq<char>>,
    pub word: Seq<char>,
    pub quoted: bool,
    pub escaped: bool,
}

/// The state after the character `c`.
///
/// A backslash escapes the next character, unless it is escaped itself. A
/// blank ends a word, unless it is escaped or within a quotation; then it
/// belongs to the word. A quotation mark opens or closes a quotation, unless
/// it is escaped. Every other character belongs to the word, and so does the
/// backslash that escaped it.
pub open spec fn step(s: Scan, c: char) -> Scan {
    if c == '\\' && !s.escaped {
        Scan { escaped: true, ..s }
    } else if c == ' ' && (s.escaped || s.quoted) {
        Scan { word: s.word.push(' '), escaped: false, ..s }
    } else if c == ' ' {
        if s.word.len() > 0 {
            Scan { words: s.words.push(s.word), word: Seq::empty(), escaped: false, ..s }
        } else {
            Scan { escaped: false, ..s }
        }
    } else if (c == '"' || c == '\'') && !s.escaped {
        Scan { quoted: !s.quoted, escaped: false, ..s }
    } else {
        Scan {
            word: if s.escaped {
                s.word.push('\\').push(c)
            } else {
                s.word.push(c)
            },
            escaped: false,
            ..s
        }
    }
}

/// The state after all of `input`.
pub open spec fn scanned(input: Seq<char>) -> Scan
    decreases input.len(),
{
    if input.len() == 0 {
        Scan { words: Seq::empty(), word: Seq::empty(), quoted: false, escaped: false }
    } else {
        step(scanned(input.drop_last()), input.last())
    }
}

/// The words of the command line `input`. The word at the end counts even
/// where it is empty, so there is always one.
pub open spec fn words(input: Seq<char>) -> Seq<Seq<char>> {
    scanned(input).words.push(scanned(input).word)
}

/// The time of an alarm as a command gets it: minutes and seconds, with the
/// hours before them from one hour on.
pub open spec fn time_of_day(time: u32) -> Seq<char> {
    if time < 3600 {
        two_digits((time / 60) as nat) + seq![':'] + two_digits((time % 60) as nat)
    } else {
        two_digits((time / 3600) as nat) + seq![':'] + two_digits(((time / 60) % 60) as nat)
            + seq![':'] + two_digits((time % 60) as nat)
    }
}

/// An argument with `{t}` replaced by the time and then `{l}` by the label.
pub open spec fn filled(argument: Seq<char>, time: Seq<char>, label: Seq<char>) -> Seq<char> {
    replaced(replaced(argument, "{t}"@, time), "{l}"@, label)
}

/// A command with its arguments filled in. Its first word, the program, stays
/// as it is.
pub open spec fn call(command: Seq<Seq<char>>, time: Seq<char>, label: Seq<char>) -> Seq<
    Seq<char>,
> {
    Seq::new(
        command.len(),
        |i: int|
            if i == 0 {
                command[0]
            } else {
                filled(command[i], time, label)
            },
    )
}

/// All commands filled in for an alarm at `time` with `label`.
pub open spec fn batch(commands: Seq<Seq<Seq<char>>>, time: u32, label: Seq<char>) -> Seq<
    Seq<Seq<char>>,
> {
    Seq::new(commands.len(), |i: int| call(commands[i], time_of_day(time), label))
}

/// The commands, each a program and its arguments, and the ids of the
/// processes that were started and are not known to have ended.
pub struct Cradle {
    commands: Vec<Vec<String>>,
    children: Vec<u32>,
}

impl Cradle {
    /// The commands, each as the texts of its words.
    pub closed spec fn commands(&self) -> Seq<Seq<Seq<char>>> {
        self.commands.deep_view()
    }

    /// The ids of the processes that are not known to have ended, in the
    /// order in which they were started.
    pub closed spec fn children(&self) -> Seq<u32> {
        self.children@
    }

    /// Each command names a program.
    pub open spec fn wf(&self) -> bool {
        forall|i: int| 0 <= i < self.commands().len() ==> (#[trigger] self.commands()[i]).len() > 0
    }

    /// A cradle without commands and without processes.
    pub fn new() -> (cradle: Cradle)
        ensures
            cradle.wf(),
            cradle.commands() == Seq::<Seq<Seq<char>>>::empty(),
            cradle.children() == Seq::<u32>::empty(),
    {
        let cradle = Cradle { commands: Vec::new(), children: Vec::new() };
        assert(cradle.commands.deep_view() == Seq::<Seq<Seq<char>>>::empty());
        cradle
    }

    /// Takes a command: a program and its arguments.
    pub fn add(&mut self, command: Vec<String>)
        requires
            old(self).wf(),
            command@.len() > 0,
        ensures
            final(self).wf(),
            final(self).commands() == old(self).commands().push(command.deep_view()),
            final(self).children() == old(self).children(),
    {
        let ghost words = command.deep_view();
        self.commands.push(command);
        assert(self.commands.deep_view() == old(self).commands.deep_view().push(words));
        assert forall|i: int| 0 <= i < self.commands().len() implies (
        #[trigger] self.commands()[i]).len() > 0 by {
            if i < old(self).commands().len() {
                assert(self.commands()[i] == old(self).commands()[i]);
            }
        }
    }

    /// The commands to start for an alarm at `time` with `label`, with the
    /// time and the label filled in. None is to be started while a process
    /// that was started before is not known to have ended.
    pub fn run_all(&self, time: u32, label: &String) -> (calls: Vec<Vec<String>>)
        requires
            self.wf(),
        ensures
            self.children().len() > 0 ==> calls.deep_view() == Seq::<Seq<Seq<char>>>::empty(),
            self.children().len() == 0 ==> calls.deep_view() == batch(
                self.commands(),
                time,
                label@,
            ),
    {
        let mut calls: Vec<Vec<String>> = Vec::new();
        if self.children.len() > 0 {
            assert(calls.deep_view() == Seq::<Seq<Seq<char>>>::empty());
            return calls;
        }
        let mut text = String::new();
        if time >= 3600 {
            push_two_digits(&mut text, time / 3600);
            push_char(&mut text, ':');
            push_two_digits(&mut text, (time / 60) % 60);
        } else {
            push_two_digits(&mut text, time / 60);
        }
        push_char(&mut text, ':');
        push_two_digits(&mut text, time % 60);
        assert(text@ == time_of_day(time));

        let ghost commands = self.commands();
        let mut i: usize = 0;
        while i < self.commands.len()
            invariant
                i <= self.commands@.len(),
                self.wf(),
                commands == self.commands(),
                text@ == time_of_day(time),
                calls.deep_view() == Seq::new(
                    i as nat,
                    |k: int| call(commands[k], time_of_day(time), label@),
                ),
            decreases self.commands@.len() - i,
        {
            let command = &self.commands[i];
            assert(command.deep_view() == commands[i as int]);
            assert(commands[i as int].len() > 0);
            let ghost before = calls.deep_view();
            let mut words: Vec<String> = Vec::new();
            words.push(command[0].clone());
            let mut k: usize = 1;
            while k < command.len()
                invariant
                    1 <= k <= command@.len(),
                    words.deep_view() == Seq::new(
                        k as nat,
                        |j: int|
                            if j == 0 {
                                command.deep_view()[0]
                            } else {
                                filled(command.deep_view()[j], text@, label@)
                            },
                    ),
                decreases command@.len() - k,
            {
                let ghost so_far = words.deep_view();
                let timed = replace(command[k].as_str(), "{t}", text.as_str());
                let word = replace(timed.as_str(), "{l}", label.as_str());
                assert(word@ == filled(command.deep_view()[k as int], text@, label@));
                words.push(word);
                assert(words.deep_view() == so_far.push(word@));
                k += 1;
            }
            assert(words.deep_view() == call(commands[i as int], time_of_day(time), label@));
            let ghost made = words.deep_view();
            calls.push(words);
            assert(calls.deep_view() == before.push(made));
            i += 1;
        }
        calls
    }

    /// Takes the id of a process that was started for a command.
    pub fn adopt(&mut self, child: u32)
        ensures
            final(self).commands() == old(self).commands(),
            final(self).children() == old(self).children().push(child),
    {
        self.children.push(child);
    }

    /// The process to ask next whether it has ended: the one started last.
    pub fn last_child(&self) -> (child: Option<u32>)
        ensures
            self.children().len() == 0 ==> child is None,
            self.children().len() > 0 ==> child == Some(self.children().last()),
    {
        if self.children.len() > 0 {
            Some(self.children[self.children.len() - 1])
        } else {
            None
        }
    }

    /// Takes what was found when the process started last was asked whether
    /// it has ended. One that has ended, or that could not be asked, is
    /// forgotten, and the next is to be asked. One that is still running
    /// stays, and with it all started before it: none of them is asked now.
    /// Tells whether to go on asking.
    pub fn tend(&mut self, state: ChildState) -> (more: bool)
        ensures
            final(self).commands() == old(self).commands(),
            more == (old(self).children().len() > 0 && state != ChildState::Running),
            more ==> final(self).children() == old(self).children().drop_last(),
            !more ==> final(self).children() == old(self).children(),
    {
        if self.children.len() == 0 {
            return false;
        }
        match state {
            ChildState::Running => false,
            _ => {
                let _ = self.children.pop();
                true
            },
        }
    }

    /// Splits a command line into the words of a command.
    pub fn parse(input: &str) -> (command: Vec<String>)
        ensures
            command.deep_view() == words(input@),
            command@.len() > 0,
    {
        let chars = chars_of(input);
        let mut command: Vec<String> = Vec::new();
        let mut segment = String::new();
        let mut quoted = false;
        let mut escaped = false;
        let mut i: usize = 0;
        assert(chars@.take(0) == Seq::<char>::empty());
        assert(command.deep_view() == Seq::<Seq<char>>::empty());
        while i < chars.len()
            invariant
                i <= chars.len(),
                chars@ == input@,
                scanned(chars@.take(i as int)) == (Scan {
                    words: command.deep_view(),
                    word: segment@,
                    quoted,
                    escaped,
                }),
            decreases chars.len() - i,
        {
            let c = chars[i];
            let ghost before = command.deep_view();
            proof {
                let head = chars@.take(i + 1);
                assert(head.drop_last() == chars@.take(i as int));
                assert(head.last() == c);
            }
            if c == '\\' && !escaped {
                escaped = true;
            } else {
                if c == ' ' && (escaped || quoted) {
                    push_char(&mut segment, ' ');
                } else if c == ' ' {
                    if !segment.as_str().is_empty() {
                        let ghost word = segment@;
                        command.push(segment);
                        segment = String::new();
                        assert(command.deep_view() == before.push(word));
                    }
                } else if (c == '"' || c == '\'') && !escaped {
                    quoted = !quoted;
                } else {
                    if escaped {
                        push_char(&mut segment, '\\');
                    }
                    push_char(&mut segment, c);
                }
                escaped = false;
            }
            i += 1;
        }
        assert(chars@.take(i as int) == chars@);
        let ghost before = command.deep_view();
        let ghost word = segment@;
        command.push(segment);
        assert(command.deep_view() == before.push(word));
        command
    }
}

} // verus!
