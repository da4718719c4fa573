//! The commands of the program: their names, the help page that lists them,
//! and what is answered to a name that is none of them.

use vstd::prelude::*;
use crate::text::same_text;

verus! {

/// Width of the column of command names on the help page.
pub const NAME_COLUMN: usize = 20;

/// A command as the help page lists it.
#[derive(Debug)]
pub struct Command {
    /// The names that call the command, as shown: `m, memory`.
    pub name: String,
    /// One line on what the command does.
    pub help: String,
}

/// What the program says of itself at the head of the help page.
#[derive(Debug)]
pub struct About {
    /// The program's name.
    pub name: String,
    /// Its version, without the `v` that is printed before it.
    pub version: String,
    /// Who wrote it.
    pub authors: String,
    /// What it is for, in a sentence.
    pub description: String,
}

/// The metrics that the program reports.
#[derive(Clone, Copy, Debug, PartialEq, Eq, Structural)]
pub enum Subcommand {
    /// Memory in use.
    Memory,
    /// Load of the processor.
    Cpu,
    /// Load averages of the system.
    Load,
    /// Temperature of the processor.
    Temp,
    /// Time since the system came up.
    Uptime,
}

/// What the program does with its arguments.
#[derive(Clone, Copy, Debug, PartialEq, Eq, Structural)]
pub enum Action {
    /// Print the help page.
    Help,
    /// Print name and version.
    Version,
    /// Run a command.
    Run(Subcommand),
    /// Answer that the name calls nothing.
    NoMatch,
}

/// `count` spaces.
pub open spec fn spaces(count: nat) -> Seq<char> {
    Seq::new(count, |i: int| ' ')
}

/// `text`, filled up with spaces to `width` characters where it is shorter.
pub open spec fn padded(text: Seq<char>, width: nat) -> Seq<char> {
    if text.len() < width {
        text + spaces((width - text.len()) as nat)
    } else {
        text
    }
}

/// The help page's line for one command: indented, the name filled up to
/// its column, then the help.
pub open spec fn command_line(command: Command) -> Seq<char> {
    "    "@ + padded(command.name@, NAME_COLUMN as nat) + command.help@ + "\n"@
}

/// The lines for `commands`, in their order.
pub open spec fn command_lines(commands: Seq<Command>) -> Seq<char>
    decreases commands.len(),
{
    if commands.len() == 0 {
        Seq::empty()
    } else {
        command_lines(commands.drop_last()) + command_line(commands.last())
    }
}

/// The help page: name and version, the authors, how to call `program`, the
/// description, the options as `options` lists them, and the commands.
pub open spec fn help_page(
    about: About,
    program: Seq<char>,
    options: Seq<char>,
    commands: Seq<Command>,
) -> Seq<char> {
    about.name@ + " v"@ + about.version@ + "\n"@ + about.authors@ + "\n\n"@ + "Usage: "@ + program
        + " [options] COMMAND"@ + "\n\n"@ + about.description@ + options + "\nCommands:\n"@
        + command_lines(commands)
}

/// The names of a command, as the help page shows them.
pub open spec fn entry_name(command: Subcommand) -> Seq<char> {
    match command {
        Subcommand::Memory => "m, memory"@,
        Subcommand::Cpu => "c, cpu"@,
        Subcommand::Load => "l, load"@,
        Subcommand::Temp => "t, temp"@,
        Subcommand::Uptime => "u, uptime"@,
    }
}

/// The help line of a command.
pub open spec fn entry_help(command: Subcommand) -> Seq<char> {
    match command {
        Subcommand::Memory => "output memory usage info"@,
        Subcommand::Cpu => "output cpu usage info"@,
        Subcommand::Load => "output load average"@,
        Subcommand::Temp => "output cpu temp"@,
        Subcommand::Uptime => "output system uptime"@,
    }
}

/// The command that `name` calls, by its short or its long name.
pub open spec fn subcommand_named(name: Seq<char>) -> Option<Subcommand> {
    if name == "m"@ || name == "memory"@ {
        Some(Subcommand::Memory)
    } else if name == "c"@ || name == "cpu"@ {
        Some(Subcommand::Cpu)
    } else if name == "l"@ || name == "load"@ {
        Some(Subcommand::Load)
    } else if name == "t"@ || name == "temp"@ {
        Some(Subcommand::Temp)
    } else if name == "u"@ || name == "uptime"@ {
        Some(Subcommand::Uptime)
    } else {
        None
    }
}

/// What is done for the flags and the first free argument: help comes
/// before the version, the version before any command, and no command at all
/// is a call for help.
pub open spec fn action_for(help: bool, version: bool, name: Option<Seq<char>>) -> Action {
    if help {
        Action::Help
    } else if version {
        Action::Version
    } else {
        match name {
            None => Action::Help,
            Some(text) => match subcommand_named(text) {
                Some(command) => Action::Run(command),
                None => Action::NoMatch,
            },
        }
    }
}

/// How many load averages `choice` asks for: one, two or three, and all
/// three where nothing is chosen.
pub open spec fn load_count_of(choice: Option<Seq<char>>) -> Option<u8> {
    match choice {
        None => Some(3u8),
        Some(text) => if text == "1"@ {
            Some(1u8)
        } else if text == "2"@ {
            Some(2u8)
        } else if text == "3"@ {
            Some(3u8)
        } else {
            None
        },
    }
}

/// An argument that may be absent, as the text it holds.
pub open spec fn argument_text(argument: Option<&str>) -> Option<Seq<char>> {
    match argument {
        None => None,
        Some(text) => Some(text@),
    }
}

/// The first line of a command's own help: how to call it.
pub open spec fn usage_brief_text(program: Seq<char>, command: Seq<char>) -> Seq<char> {
    "Usage: "@ + program + " "@ + command + " [options]"@
}

/// What is answered to a name that calls nothing.
pub open spec fn no_match_text(name: Seq<char>) -> Seq<char> {
    "no command matches `"@ + name + "`"@
}

impl Command {
    /// A command of the given name and help line.
    pub fn new(name: &str, help: &str) -> (command: Command)
        ensures
            command.name@ == name@,
            command.help@ == help@,
    {
        Command { name: String::from_str(name), help: String::from_str(help) }
    }

    /// The help page's line for this command.
    pub fn line(&self) -> (text: String)
        ensures
            text@ == command_line(*self),
    {
        let mut out = String::from_str("    ");
        out.append(self.name.as_str());
        let length = self.name.as_str().unicode_len();
        let mut filled: usize = length;
        while filled < NAME_COLUMN
            invariant
                length == self.name@.len(),
                length <= filled,
                filled <= NAME_COLUMN || filled == length,
                out@ == "    "@ + self.name@ + spaces((filled - length) as nat),
            decreases NAME_COLUMN - filled,
        {
            proof {
                reveal_strlit(" ");
            }
            out.append(" ");
            filled = filled + 1;
        }
        out.append(self.help.as_str());
        out.append("\n");
        out
    }
}

impl Subcommand {
    /// The command that `name` calls, if it calls one.
    pub fn from_name(name: &str) -> (command: Option<Subcommand>)
        ensures
            command == subcommand_named(name@),
    {
        if same_text(name, "m") || same_text(name, "memory") {
            Some(Subcommand::Memory)
        } else if same_text(name, "c") || same_text(name, "cpu") {
            Some(Subcommand::Cpu)
        } else if same_text(name, "l") || same_text(name, "load") {
            Some(Subcommand::Load)
        } else if same_text(name, "t") || same_text(name, "temp") {
            Some(Subcommand::Temp)
        } else if same_text(name, "u") || same_text(name, "uptime") {
            Some(Subcommand::Uptime)
        } else {
            None
        }
    }

    /// The command as the help page lists it.
    pub fn entry(&self) -> (command: Command)
        ensures
            command.name@ == entry_name(*self),
            command.help@ == entry_help(*self),
    {
        match self {
            Subcommand::Memory => Command::new("m, memory", "output memory usage info"),
            Subcommand::Cpu => Command::new("c, cpu", "output cpu usage info"),
            Subcommand::Load => Command::new("l, load", "output load average"),
            Subcommand::Temp => Command::new("t, temp", "output cpu temp"),
            Subcommand::Uptime => Command::new("u, uptime", "output system uptime"),
        }
    }
}

/// Decides what to do, from the help flag, the version flag and the first
/// free argument.
pub fn dispatch(help: bool, version: bool, name: Option<&str>) -> (action: Action)
    ensures
        action == action_for(help, version, argument_text(name)),
{
    if help {
        return Action::Help;
    }
    if version {
        return Action::Version;
    }
    match name {
        None => Action::Help,
        Some(text) => match Subcommand::from_name(text) {
            Some(command) => Action::Run(command),
            None => Action::NoMatch,
        },
    }
}

/// How many load averages to show: what `choice` says where it is `1`, `2`
/// or `3`, all three where there is no choice, and `None` for any other.
pub fn load_count(choice: Option<&str>) -> (count: Option<u8>)
    ensures
        count == load_count_of(argument_text(choice)),
{
    match choice {
        None => Some(3),
        Some(text) => {
            if same_text(text, "1") {
                Some(1)
            } else if same_text(text, "2") {
                Some(2)
            } else if same_text(text, "3") {
                Some(3)
            } else {
                None
            }
        },
    }
}

/// The first line of the help of `command`: how `program` is called with
/// it.
pub fn usage_brief(program: &str, command: &str) -> (text: String)
    ensures
        text@ == usage_brief_text(program@, command@),
{
    let mut out = String::from_str("Usage: ");
    out.append(program);
    out.append(" ");
    out.append(command);
    out.append(" [options]");
    out
}

/// The answer to a name that calls nothing.
pub fn no_match_message(name: &str) -> (text: String)
    ensures
        text@ == no_match_text(name@),
{
    let mut out = String::from_str("no command matches `");
    out.append(name);
    out.append("`");
    out
}

/// The help page of the program.
pub fn help_text(about: &About, program: &str, options: &str, commands: &Vec<Command>) -> (text:
    String)
    ensures
        text@ == help_page(*about, program@, options@, commands@),
{
    let mut out = String::new();
    out.append(about.name.as_str());
    out.append(" v");
    out.append(about.version.as_str());
    out.append("\n");
    out.append(about.authors.as_str());
    out.append("\n\n");
    out.append("Usage: ");
    out.append(program);
    out.append(" [options] COMMAND");
    out.append("\n\n");
    out.append(about.description.as_str());
    out.append(options);
    out.append("\nCommands:\n");
    let ghost head = out@;
    assert(head =~= about.name@ + " v"@ + about.version@ + "\n"@ + about.authors@ + "\n\n"@
        + "Usage: "@ + program@ + " [options] COMMAND"@ + "\n\n"@ + about.description@ + options@
        + "\nCommands:\n"@);
    let mut index: usize = 0;
    while index < commands.len()
        invariant
            index <= commands.len(),
            out@ == head + command_lines(commands@.take(index as int)),
        decreases commands.len() - index,
    {
        let line = commands[index].line();
        out.append(line.as_str());
        proof {
            let next = commands@.take(index + 1);
            assert(next.drop_last() =~= commands@.take(index as int));
            assert(next.last() == commands@[index as int]);
        }
        index = index + 1;
    }
    assert(commands@.take(index as int) =~= commands@);
    out
}

} // verus!
