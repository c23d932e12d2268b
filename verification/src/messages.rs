//! The texts the calculator speaks in, in two tones, and the flags that
//! choose between them.

use crate::session::{Reply, ReplyView};
use vstd::prelude::*;

verus! {

/// The tone of the messages.
#[derive(Clone, Copy, Debug, PartialEq, Eq, Structural)]
pub enum TextMode {
    Silly,
    Serious,
}

/// The five texts of one tone.
#[derive(Clone, Copy, Debug, PartialEq, Eq)]
pub struct Messages {
    /// The licence notice shown first, unless it is suppressed.
    pub license: &'static str,
    /// The greeting.
    pub welcome: &'static str,
    /// The farewell.
    pub goodbye: &'static str,
    /// What is said of a line that is neither a command nor an expression.
    pub error: &'static str,
    /// The answer to `info`.
    pub info: &'static str,
}

/// The licence notice; it is the same in both tones.
pub const LICENSE: &'static str =
    "calc.rs  Copyright (C) 2024  miiiiiyt\nThis program comes with ABSOLUTELY NO WARRANTY; for details type `info'.\nThis is free software, and you are welcome to redistribute it\nunder certain conditions; type `info' for details.";

pub const SILLY_WELCOME: &'static str =
    "Welcome to calc.rs :3\nMade by miiiiiyt.\nPlease note that of right now you can only supply two numbers.\nArguments need to be seperated by spaces.";

pub const SILLY_GOODBYE: &'static str = "Take care love <3";

pub const SILLY_ERROR: &'static str = "Oopsie :c";

pub const SILLY_INFO: &'static str =
    "calc.rs (c) 2024 miiiiiyt\nA basic commandline calculator written in Rust.\nGithub: https://github.com/miiiiiyt/calc.rs\nLicense: https://www.gnu.org/licenses/gpl-3.0\nNow with added fun! :3";

pub const SERIOUS_WELCOME: &'static str =
    "Welcome to calc.rs.\nMade by miiiiiyt.\nPlease note that of right now you can only supply two numbers.\nArguments need to be seperated by spaces.";

pub const SERIOUS_GOODBYE: &'static str = "Goodbye";

pub const SERIOUS_ERROR: &'static str =
    "An error occured. Please check your input.\nIf you believe this to be a bug, please report it on the Github.\nType info for more info.";

pub const SERIOUS_INFO: &'static str =
    "calc.rs (c) 2024 miiiiiyt\nA basic commandline calculator written in Rust.\nGithub: https://github.com/miiiiiyt/calc.rs\nLicense: https://www.gnu.org/licenses/gpl-3.0\nNo fun allowed today.\n(see https://github.com/miiiiiYT/calc.rs/tree/master#flags for instructions on how to enable fun)";

/// The flag that asks for the serious tone.
pub const FLAG_SERIOUS: &'static str = "--serious";

/// The flag that asks for the silly tone.
pub const FLAG_SILLY: &'static str = "--silly";

/// The flag that suppresses the licence notice.
pub const FLAG_SUPPRESS_NOTICE: &'static str = "--suppress-notice";

/// The short form of `FLAG_SUPPRESS_NOTICE`.
pub const FLAG_SUPPRESS_NOTICE_SHORT: &'static str = "-n";

/// The texts of a tone.
pub open spec fn messages_for(mode: TextMode) -> Messages {
    match mode {
        TextMode::Silly => Messages {
            license: LICENSE,
            welcome: SILLY_WELCOME,
            goodbye: SILLY_GOODBYE,
            error: SILLY_ERROR,
            info: SILLY_INFO,
        },
        TextMode::Serious => Messages {
            license: LICENSE,
            welcome: SERIOUS_WELCOME,
            goodbye: SERIOUS_GOODBYE,
            error: SERIOUS_ERROR,
            info: SERIOUS_INFO,
        },
    }
}

/// The tone that the arguments ask for: serious where they say so, silly
/// where they say only that, and serious where they say neither.
pub open spec fn mode_of(args: Seq<Seq<char>>) -> TextMode {
    if args.contains(FLAG_SERIOUS@) {
        TextMode::Serious
    } else if args.contains(FLAG_SILLY@) {
        TextMode::Silly
    } else {
        TextMode::Serious
    }
}

/// Whether the arguments ask to leave the licence notice out.
pub open spec fn suppresses_notice(args: Seq<Seq<char>>) -> bool {
    args.contains(FLAG_SUPPRESS_NOTICE@) || args.contains(FLAG_SUPPRESS_NOTICE_SHORT@)
}

impl Messages {
    /// The text that goes with a reply: the goodbye, the information or the
    /// error text. An empty line has none, and the value of an expression
    /// is no text of this bundle.
    pub open spec fn text_of(self, reply: ReplyView) -> Option<&'static str> {
        match reply {
            ReplyView::Goodbye => Some(self.goodbye),
            ReplyView::Info => Some(self.info),
            ReplyView::Error => Some(self.error),
            ReplyView::Nothing => None,
            ReplyView::Calculate(_) => None,
        }
    }

    /// The text to print for `reply`, if it calls for one of this bundle.
    pub fn text_for(&self, reply: &Reply) -> (text: Option<&'static str>)
        ensures
            text == self.text_of(reply@),
    {
        match reply {
            Reply::Goodbye => Some(self.goodbye),
            Reply::Info => Some(self.info),
            Reply::Error => Some(self.error),
            Reply::Nothing => None,
            Reply::Calculate(_) => None,
        }
    }
}

/// The texts of the tone `mode`.
pub fn get_messages(mode: TextMode) -> (messages: Messages)
    ensures
        messages == messages_for(mode),
{
    match mode {
        TextMode::Silly => Messages {
            license: LICENSE,
            welcome: SILLY_WELCOME,
            goodbye: SILLY_GOODBYE,
            error: SILLY_ERROR,
            info: SILLY_INFO,
        },
        TextMode::Serious => Messages {
            license: LICENSE,
            welcome: SERIOUS_WELCOME,
            goodbye: SERIOUS_GOODBYE,
            error: SERIOUS_ERROR,
            info: SERIOUS_INFO,
        },
    }
}

/// Whether `flag` is among `args`, as a whole argument.
pub fn has_flag(args: &Vec<String>, flag: &str) -> (found: bool)
    ensures
        found == args.deep_view().contains(flag@),
{
    let wanted = String::from_str(flag);
    let mut i: usize = 0;
    while i < args.len()
        invariant
            i <= args.len(),
            wanted@ == flag@,
            forall|k: int| 0 <= k < i ==> #[trigger] args.deep_view()[k] != flag@,
        decreases args.len() - i,
    {
        if args[i] == wanted {
            assert(args.deep_view()[i as int] == flag@);
            return true;
        }
        i += 1;
    }
    false
}

/// The tone that the program's arguments ask for.
pub fn select_mode(args: &Vec<String>) -> (mode: TextMode)
    ensures
        mode == mode_of(args.deep_view()),
{
    if has_flag(args, FLAG_SERIOUS) {
        TextMode::Serious
    } else if has_flag(args, FLAG_SILLY) {
        TextMode::Silly
    } else {
        TextMode::Serious
    }
}

/// Whether the program's arguments ask to leave the licence notice out.
pub fn notice_suppressed(args: &Vec<String>) -> (suppressed: bool)
    ensures
        suppressed == suppresses_notice(args.deep_view()),
{
    has_flag(args, FLAG_SUPPRESS_NOTICE) || has_flag(args, FLAG_SUPPRESS_NOTICE_SHORT)
}

} // verus!
