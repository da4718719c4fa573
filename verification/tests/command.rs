use sysinfo::command::{
    dispatch, help_text, load_count, no_match_message, usage_brief, About, Action, Command,
    Subcommand,
};

#[test]
fn a_command_holds_its_name_and_help() {
    let command = Command::new("m, memory", "output memory usage info");
    assert_eq!(command.name, "m, memory");
    assert_eq!(command.help, "output memory usage info");
}

#[test]
fn a_name_is_filled_up_to_its_column() {
    let command = Command::new("m, memory", "output memory usage info");
    assert_eq!(command.line(), "    m, memory           output memory usage info\n");
    assert_eq!(Command::new("", "x").line(), format!("    {}x\n", " ".repeat(20)));
}

#[test]
fn a_long_name_is_not_cut() {
    let twenty = "a".repeat(20);
    assert_eq!(Command::new(&twenty, "h").line(), format!("    {}h\n", twenty));
    let more = "b".repeat(25);
    assert_eq!(Command::new(&more, "h").line(), format!("    {}h\n", more));
}

#[test]
fn the_column_counts_characters() {
    let command = Command::new("\u{2191}p", "up");
    assert_eq!(command.line(), format!("    \u{2191}p{}up\n", " ".repeat(18)));
}

#[test]
fn commands_answer_to_both_names() {
    assert_eq!(Subcommand::from_name("m"), Some(Subcommand::Memory));
    assert_eq!(Subcommand::from_name("memory"), Some(Subcommand::Memory));
    assert_eq!(Subcommand::from_name("c"), Some(Subcommand::Cpu));
    assert_eq!(Subcommand::from_name("cpu"), Some(Subcommand::Cpu));
    assert_eq!(Subcommand::from_name("l"), Some(Subcommand::Load));
    assert_eq!(Subcommand::from_name("load"), Some(Subcommand::Load));
    assert_eq!(Subcommand::from_name("t"), Some(Subcommand::Temp));
    assert_eq!(Subcommand::from_name("temp"), Some(Subcommand::Temp));
    assert_eq!(Subcommand::from_name("u"), Some(Subcommand::Uptime));
    assert_eq!(Subcommand::from_name("uptime"), Some(Subcommand::Uptime));
}

#[test]
fn other_names_call_nothing() {
    assert_eq!(Subcommand::from_name(""), None);
    assert_eq!(Subcommand::from_name("M"), None);
    assert_eq!(Subcommand::from_name("mem"), None);
    assert_eq!(Subcommand::from_name("memory "), None);
    assert_eq!(Subcommand::from_name("x"), None);
}

#[test]
fn each_command_has_its_entry() {
    let entry = Subcommand::Memory.entry();
    assert_eq!((entry.name.as_str(), entry.help.as_str()), ("m, memory", "output memory usage info"));
    let entry = Subcommand::Cpu.entry();
    assert_eq!((entry.name.as_str(), entry.help.as_str()), ("c, cpu", "output cpu usage info"));
    let entry = Subcommand::Load.entry();
    assert_eq!((entry.name.as_str(), entry.help.as_str()), ("l, load", "output load average"));
    let entry = Subcommand::Temp.entry();
    assert_eq!((entry.name.as_str(), entry.help.as_str()), ("t, temp", "output cpu temp"));
    let entry = Subcommand::Uptime.entry();
    assert_eq!((entry.name.as_str(), entry.help.as_str()), ("u, uptime", "output system uptime"));
}

#[test]
fn one_to_three_load_averages() {
    assert_eq!(load_count(Some("1")), Some(1));
    assert_eq!(load_count(Some("2")), Some(2));
    assert_eq!(load_count(Some("3")), Some(3));
    assert_eq!(load_count(Some("0")), None);
    assert_eq!(load_count(Some("4")), None);
    assert_eq!(load_count(Some("")), None);
    assert_eq!(load_count(Some("03")), None);
}

#[test]
fn all_three_load_averages_where_none_is_chosen() {
    assert_eq!(load_count(None), Some(3));
}

#[test]
fn how_a_command_is_called() {
    assert_eq!(usage_brief("sysinfo", "m"), "Usage: sysinfo m [options]");
    assert_eq!(usage_brief("", ""), "Usage:   [options]");
}

#[test]
fn the_answer_names_what_was_asked_for() {
    assert_eq!(no_match_message("frobnicate"), "no command matches `frobnicate`");
    assert_eq!(no_match_message(""), "no command matches ``");
}

#[test]
fn the_help_page() {
    let about = About {
        name: String::from("sysinfo"),
        version: String::from("0.1.0"),
        authors: String::from("A. Author"),
        description: String::from("Host metrics in one line."),
    };
    let commands = vec![Subcommand::Memory.entry(), Subcommand::Uptime.entry()];
    let page = help_text(&about, "si", "\n\nOptions:\n    -h, --help    print help\n", &commands);
    let expected = "sysinfo v0.1.0\n\
A. Author\n\
\n\
Usage: si [options] COMMAND\n\
\n\
Host metrics in one line.\n\
\n\
Options:\n    -h, --help    print help\n\
\n\
Commands:\n    m, memory           output memory usage info\n    u, uptime           output system uptime\n";
    assert_eq!(page, expected);
}

#[test]
fn the_help_page_without_commands() {
    let about = About {
        name: String::new(),
        version: String::new(),
        authors: String::new(),
        description: String::new(),
    };
    let page = help_text(&about, "", "", &Vec::new());
    assert_eq!(page, " v\n\n\nUsage:  [options] COMMAND\n\n\nCommands:\n");
}

#[test]
fn help_comes_before_everything() {
    assert_eq!(dispatch(true, false, None), Action::Help);
    assert_eq!(dispatch(true, true, Some("memory")), Action::Help);
    assert_eq!(dispatch(true, false, Some("nothing")), Action::Help);
}

#[test]
fn the_version_comes_before_a_command() {
    assert_eq!(dispatch(false, true, None), Action::Version);
    assert_eq!(dispatch(false, true, Some("uptime")), Action::Version);
}

#[test]
fn no_command_is_a_call_for_help() {
    assert_eq!(dispatch(false, false, None), Action::Help);
}

#[test]
fn a_command_is_run_by_its_name() {
    assert_eq!(dispatch(false, false, Some("m")), Action::Run(Subcommand::Memory));
    assert_eq!(dispatch(false, false, Some("uptime")), Action::Run(Subcommand::Uptime));
    assert_eq!(dispatch(false, false, Some("nothing")), Action::NoMatch);
    assert_eq!(dispatch(false, false, Some("")), Action::NoMatch);
}
