//! What the command line asks for.

use crate::alarm::added;
use crate::alarm::AlarmRoster;
use crate::alarm::AlarmView;
use crate::alarm::ErrorKind;
use crate::clock::font::chrome_font;
use crate::clock::font::normal_font;
use crate::clock::font::plain_font;
use crate::clock::font::Font;
use crate::cradle::words;
use crate::cradle::Cradle;
use crate::text::chars_of;
use crate::text::push_text;
use crate::text::same_text;
use vstd::prelude::*;

verus! {

/// The settings of a run: whether to end it when the last alarm was raised,
/// whether to use the rarer characters, the font of the clock, and the
/// commands to run at an alarm.
pub struct Config {
    pub quit: bool,
    pub fancy: bool,
    pub font: Font,
    pub commands: Cradle,
}

/// The settings with the commands as texts.
pub struct ConfigView {
    pub quit: bool,
    pub fancy: bool,
    pub font: Font,
    pub commands: Seq<Seq<Seq<char>>>,
}

impl View for Config {
    type V = ConfigView;

    open spec fn view(&self) -> ConfigView {
        ConfigView {
            quit: self.quit,
            fancy: self.fancy,
            font: self.font,
            commands: self.commands.commands(),
        }
    }
}

/// What the command line asks the program to do.
pub enum Startup {
    /// Run, with these settings.
    Run(Config),
    /// Show how the program is called, and end.
    Usage,
    /// Show the version, and end.
    Version,
}

/// What the command line asks for, with the settings as texts.
pub enum StartupView {
    Run(ConfigView),
    Usage,
    Version,
}

impl View for Startup {
    type V = StartupView;

    open spec fn view(&self) -> StartupView {
        match self {
            Startup::Run(config) => StartupView::Run(config@),
            Startup::Usage => StartupView::Usage,
            Startup::Version => StartupView::Version,
        }
    }
}

/// The alarms after the arguments were read, and what they ask for or the
/// message on the first that is wrong.
pub struct Outcome {
    pub list: Seq<AlarmView>,
    pub result: Result<StartupView, Seq<char>>,
}

/// The message on an option that lacks its parameter.
pub open spec fn missing_parameter(arg: Seq<char>) -> Seq<char> {
    "Missing parameter to \""@ + arg + "\"."@
}

/// The message on an option that is not known.
pub open spec fn unrecognized(arg: Seq<char>) -> Seq<char> {
    "Unrecognized option: \""@ + arg
        + "\"\nUse \"-h\" or \"--help\" for a list of valid command line options."@
}

/// The message on an argument that was refused as an alarm.
pub open spec fn not_added(arg: Seq<char>, e: ErrorKind) -> Seq<char> {
    "Error adding \""@ + arg + "\" as alarm. ("@ + e.text() + ")"@
}

/// The settings before any argument is read.
pub open spec fn defaults() -> ConfigView {
    ConfigView { quit: false, fancy: false, font: normal_font(), commands: Seq::empty() }
}

/// What the arguments `args` make of the settings `config` and of the alarms
/// `list`, read from the left.
///
/// An option changes the settings; `-e` takes the argument after it as a
/// command line. An argument that is no option is added as an alarm. The
/// options for help and for the version end the reading, and so does the
/// first argument that is wrong.
pub open spec fn outcome(args: Seq<Seq<char>>, config: ConfigView, list: Seq<AlarmView>) -> Outcome
    decreases args.len(),
{
    if args.len() == 0 {
        Outcome { list, result: Ok(StartupView::Run(config)) }
    } else {
        let arg = args[0];
        let rest = args.drop_first();
        if arg == "-h"@ || arg == "--help"@ {
            Outcome { list, result: Ok(StartupView::Usage) }
        } else if arg == "-v"@ || arg == "--version"@ {
            Outcome { list, result: Ok(StartupView::Version) }
        } else if arg == "-p"@ || arg == "--plain"@ {
            outcome(rest, ConfigView { font: plain_font(), ..config }, list)
        } else if arg == "-f"@ || arg == "--fancy"@ {
            outcome(rest, ConfigView { fancy: true, font: chrome_font(), ..config }, list)
        } else if arg == "-q"@ || arg == "--quit"@ {
            outcome(rest, ConfigView { quit: true, ..config }, list)
        } else if arg == "-e"@ || arg == "--exec"@ {
            if rest.len() == 0 {
                Outcome { list, result: Err(missing_parameter(arg)) }
            } else {
                outcome(
                    rest.drop_first(),
                    ConfigView { commands: config.commands.push(words(rest[0])), ..config },
                    list,
                )
            }
        } else if arg.len() > 0 && arg[0] == '-' {
            Outcome { list, result: Err(unrecognized(arg)) }
        } else {
            match added(list, arg) {
                Ok(next) => outcome(rest, config, next),
                Err(e) => Outcome { list, result: Err(not_added(arg, e)) },
            }
        }
    }
}

/// The arguments without the name of the program before them.
pub open spec fn parameters(args: Seq<Seq<char>>) -> Seq<Seq<char>> {
    if args.len() > 0 {
        args.drop_first()
    } else {
        args
    }
}

impl Config {
    /// Reads the arguments of the command line, the name of the program
    /// first, into settings, and adds the alarms among them to the roster.
    pub fn new(args: &Vec<String>, alarm_roster: &mut AlarmRoster) -> (r: Result<Startup, String>)
        requires
            old(alarm_roster).wf(),
        ensures
            final(alarm_roster).wf(),
            final(alarm_roster).scroll_offset() == old(alarm_roster).scroll_offset(),
            final(alarm_roster).hinted() == old(alarm_roster).hinted(),
            final(alarm_roster)@ == outcome(
                parameters(args.deep_view()),
                defaults(),
                old(alarm_roster)@,
            ).list,
            match outcome(parameters(args.deep_view()), defaults(), old(alarm_roster)@).result {
                Ok(startup) => r is Ok && r->Ok_0@ == startup,
                Err(message) => r is Err && r->Err_0@ == message,
            },
            r matches Ok(Startup::Run(config)) ==> config.commands.wf()
                && config.commands.children() == Seq::<u32>::empty() && config.font.wf(),
    {
        let mut config = Config {
            quit: false,
            fancy: false,
            font: Font::normal(),
            commands: Cradle::new(),
        };
        let ghost all = args.deep_view();
        let ghost goal = outcome(parameters(all), defaults(), old(alarm_roster)@);
        let mut i: usize = 1;
        if args.len() == 0 {
            return Ok(Startup::Run(config));
        }
        assert(parameters(all) == all.skip(1));
        while i < args.len()
            invariant
                1 <= i <= args.len(),
                all == args.deep_view(),
                alarm_roster.wf(),
                alarm_roster.scroll_offset() == old(alarm_roster).scroll_offset(),
                alarm_roster.hinted() == old(alarm_roster).hinted(),
                config.commands.wf(),
                config.commands.children() == Seq::<u32>::empty(),
                config.font.wf(),
                goal == outcome(parameters(all), defaults(), old(alarm_roster)@),
                outcome(all.skip(i as int), config@, alarm_roster@) == goal,
            decreases args.len() - i,
        {
            let arg = &args[i];
            let text = arg.as_str();
            let ghost rest = all.skip(i as int);
            assert(rest[0] == arg@);
            assert(rest.drop_first() == all.skip(i + 1));
            if same_text(text, "-h") || same_text(text, "--help") {
                return Ok(Startup::Usage);
            } else if same_text(text, "-v") || same_text(text, "--version") {
                return Ok(Startup::Version);
            } else if same_text(text, "-p") || same_text(text, "--plain") {
                config.font = Font::plain();
            } else if same_text(text, "-f") || same_text(text, "--fancy") {
                config.fancy = true;
                config.font = Font::chrome();
            } else if same_text(text, "-q") || same_text(text, "--quit") {
                config.quit = true;
            } else if same_text(text, "-e") || same_text(text, "--exec") {
                if i + 1 < args.len() {
                    let command = Cradle::parse(args[i + 1].as_str());
                    assert(rest.drop_first()[0] == args@[i + 1]@);
                    assert(rest.drop_first().drop_first() == all.skip(i + 2));
                    config.commands.add(command);
                    i += 1;
                } else {
                    let mut message = String::new();
                    push_text(&mut message, "Missing parameter to \"");
                    push_text(&mut message, text);
                    push_text(&mut message, "\".");
                    return Err(message);
                }
            } else {
                let chars = chars_of(text);
                if chars.len() > 0 && chars[0] == '-' {
                    let mut message = String::new();
                    push_text(&mut message, "Unrecognized option: \"");
                    push_text(&mut message, text);
                    push_text(
                        &mut message,
                        "\"\nUse \"-h\" or \"--help\" for a list of valid command line options.",
                    );
                    return Err(message);
                }
                match alarm_roster.add(arg) {
                    Ok(()) => {},
                    Err(e) => {
                        let mut message = String::new();
                        push_text(&mut message, "Error adding \"");
                        push_text(&mut message, text);
                        push_text(&mut message, "\" as alarm. (");
                        push_text(&mut message, e.message());
                        push_text(&mut message, ")");
                        return Err(message);
                    },
                }
            }
            i += 1;
        }
        assert(all.skip(i as int).len() == 0);
        Ok(Startup::Run(config))
    }
}

} // verus!
