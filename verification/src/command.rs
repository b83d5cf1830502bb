//! The commands of the debugger and the ways to name a breakpoint.

use vstd::prelude::*;
use vstd::string::StrSliceExecFns;
use crate::number::{number_value, read_decimal, read_hexadecimal};

verus! {

/// A command given to the debugger.
#[derive(Clone, Debug, PartialEq, Eq)]
pub enum DebuggerCommand {
    /// Leave the debugger.
    Quit,
    /// Start the target with these arguments.
    Run(Vec<String>),
    /// Let the halted target run on.
    Continue,
    /// Show the call stack of the halted target.
    Backtrace,
    /// Set a breakpoint at the place named.
    Break(String),
}

/// The place at which a breakpoint is asked for.
#[derive(Clone, Debug, PartialEq, Eq)]
pub enum BreakTarget {
    /// An instruction address, given as `*0x` and hexadecimal digits.
    Address(usize),
    /// A line of the source, given as a decimal number.
    Line(usize),
    /// A function, given by its name.
    Function(String),
}

/// The first word of a command line, as far as it is one the debugger knows.
pub enum Keyword {
    Quit,
    Run,
    Continue,
    Backtrace,
    Break,
}

/// The command word that `token` spells, in its long or its short form.
pub open spec fn keyword(token: Seq<char>) -> Option<Keyword> {
    if token == "quit"@ || token == "q"@ {
        Some(Keyword::Quit)
    } else if token == "run"@ {
        Some(Keyword::Run)
    } else if token == "continue"@ || token == "c"@ {
        Some(Keyword::Continue)
    } else if token == "backtrace"@ || token == "bt"@ {
        Some(Keyword::Backtrace)
    } else if token == "break"@ {
        Some(Keyword::Break)
    } else {
        None
    }
}

/// Whether `arg` starts like a raw address: `*0x`, the `x` in either case.
pub open spec fn has_address_prefix(arg: Seq<char>) -> bool {
    arg.len() >= 3 && arg[0] == '*' && arg[1] == '0' && (arg[2] == 'x' || arg[2] == 'X')
}

/// Whether `token` spells the same as `word`.
fn spells(token: &String, word: &str) -> (same: bool)
    ensures
        same == (token@ == word@),
{
    let word = word.to_owned();
    *token == word
}

fn read_keyword(token: &String) -> (word: Option<Keyword>)
    ensures
        word == keyword(token@),
{
    if spells(token, "quit") || spells(token, "q") {
        Some(Keyword::Quit)
    } else if spells(token, "run") {
        Some(Keyword::Run)
    } else if spells(token, "continue") || spells(token, "c") {
        Some(Keyword::Continue)
    } else if spells(token, "backtrace") || spells(token, "bt") {
        Some(Keyword::Backtrace)
    } else if spells(token, "break") {
        Some(Keyword::Break)
    } else {
        None
    }
}

impl DebuggerCommand {
    /// Reads a command from the words of a line.
    ///
    /// The first word names the command. `run` takes all further words as
    /// the arguments of the target; `break` takes the next word as the place
    /// of the breakpoint and is no command without it. The other commands
    /// take nothing, and further words after them are ignored.
    pub fn from_tokens(tokens: &Vec<String>) -> (command: Option<DebuggerCommand>)
        ensures
            tokens@.len() == 0 ==> command is None,
            tokens@.len() > 0 ==> match keyword(tokens@[0]@) {
                None => command is None,
                Some(Keyword::Quit) => command == Some(DebuggerCommand::Quit),
                Some(Keyword::Continue) => command == Some(DebuggerCommand::Continue),
                Some(Keyword::Backtrace) => command == Some(DebuggerCommand::Backtrace),
                Some(Keyword::Run) => command matches Some(DebuggerCommand::Run(args)) && args@
                    == tokens@.skip(1),
                Some(Keyword::Break) => if tokens@.len() >= 2 {
                    command == Some(DebuggerCommand::Break(tokens@[1]))
                } else {
                    command is None
                },
            },
    {
        if tokens.len() == 0 {
            return None;
        }
        match read_keyword(&tokens[0]) {
            None => None,
            Some(Keyword::Quit) => Some(DebuggerCommand::Quit),
            Some(Keyword::Continue) => Some(DebuggerCommand::Continue),
            Some(Keyword::Backtrace) => Some(DebuggerCommand::Backtrace),
            Some(Keyword::Run) => {
                let mut args: Vec<String> = Vec::new();
                let mut i: usize = 1;
                while i < tokens.len()
                    invariant
                        1 <= i <= tokens.len(),
                        args@ == tokens@.subrange(1, i as int),
                    decreases tokens.len() - i,
                {
                    args.push(tokens[i].clone());
                    proof {
                        assert(args@ =~= tokens@.subrange(1, i as int + 1));
                    }
                    i += 1;
                }
                proof {
                    assert(args@ =~= tokens@.skip(1));
                }
                Some(DebuggerCommand::Run(args))
            },
            Some(Keyword::Break) => {
                if tokens.len() >= 2 {
                    Some(DebuggerCommand::Break(tokens[1].clone()))
                } else {
                    None
                }
            },
        }
    }
}

/// The place that `arg` names, if it names one.
///
/// A word that starts with `*0x` is a raw address and has to go on with a
/// hexadecimal number, else it names nothing. Any other word is a line when
/// it is a decimal number, and the name of a function when not.
pub open spec fn break_target(arg: String) -> Option<BreakTarget> {
    if has_address_prefix(arg@) {
        match number_value(arg@.skip(3), 16) {
            Some(addr) => Some(BreakTarget::Address(addr)),
            None => None,
        }
    } else {
        match number_value(arg@, 10) {
            Some(number) => Some(BreakTarget::Line(number)),
            None => Some(BreakTarget::Function(arg)),
        }
    }
}

impl BreakTarget {
    /// Reads the place of a breakpoint from the word given to `break`.
    pub fn parse(arg: String) -> (target: Option<BreakTarget>)
        ensures
            target == break_target(arg),
    {
        let text = arg.as_str();
        let len = text.unicode_len();
        if len >= 3 && text.get_char(0) == '*' && text.get_char(1) == '0' && (text.get_char(2)
            == 'x' || text.get_char(2) == 'X') {
            let digits = text.substring_char(3, len);
            proof {
                assert(digits@ =~= arg@.skip(3));
            }
            return match read_hexadecimal(digits) {
                Some(addr) => Some(BreakTarget::Address(addr)),
                None => None,
            };
        }
        match read_decimal(text) {
            Some(number) => Some(BreakTarget::Line(number)),
            None => Some(BreakTarget::Function(arg)),
        }
    }
}

} // verus!
