//! The texts that the program shows.

use vstd::prelude::*;

verus! {

/// The name of the program.
pub const NAME: &'static str = "kitchentimer";

/// The version of the program.
pub const VERSION: &'static str = "0.1.0";

/// How the program is called.
pub const USAGE: &'static str = "USAGE: kitchentimer [-h|-v] [-e|--exec COMMAND] [-p] [-q] [ALARM[/LABEL]]

PARAMETERS:
  [ALARM TIME[/LABEL]]  Any number of alarm times (HH:MM:SS) with optional
                        label.

OPTIONS:
  -h, --help            Show this help.
  -v, --version         Show version information.
  -e, --exec [COMMAND]  Execute COMMAND on alarm. Occurrences of {t} will
                        be replaced by the alarm time in (HH:)MM:SS format.
                        Occurrences of {l} by alarm label.
  -p, --plain           Use simpler block chars to draw the clock.
  -f, --fancy           Make use of less common unicode characters.
  -q, --quit            Quit program after last alarm.

SIGNALS: <SIGUSR1> Reset clock.
         <SIGUSR2> Pause or un-pause clock.";

/// The menu bar.
pub const MENUBAR: &'static str =
    "[0-9] Add alarm  [d] Delete alarm  [SPACE] Pause  [r] Reset  [c] Clear color  [q] Quit";

/// The menu bar for a narrow terminal.
pub const MENUBAR_SHORT: &'static str =
    "[0-9] Add  [d] Delete  [SPACE] Pause  [r] Reset  [c] Clear  [q] Quit";

/// The menu bar while an alarm is typed.
pub const MENUBAR_INS: &'static str =
    "Format: HH:MM:SS/LABEL  [ENTER] Accept  [ESC] Cancel  [CTR-C] Quit";

/// The menu bar while the clock is paused.
pub const MENUBAR_PAUSED: &'static str = "[SPACE] Continue  [r] Reset  [UP]/[DOWN] Set clock";

} // verus!
