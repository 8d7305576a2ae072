//! The operator console: what each line typed at it asks for, and what it answers.
use vstd::prelude::*;
use crate::text::{concat3, owned, str_eq, trim, trim_str};

verus! {

/// A request to the daemon that supervises the service.
#[derive(Clone, Copy, Debug, PartialEq, Eq, Structural)]
pub enum DaemonCommand {
    Restart,
    Stop,
}

/// What the line editor handed back.
pub enum ReplSignal {
    /// A line was entered.
    Line(String),
    CtrlC,
    CtrlD,
    /// Reading failed with this message.
    ReadError(String),
}

/// What the console does next.
#[derive(PartialEq, Eq, Structural)]
pub enum ReplAction {
    /// Leave the console.
    Quit,
    /// Show the commands.
    Help,
    /// Ask the daemon for this, then leave the console.
    Request(DaemonCommand),
    /// List the Steam chat groups and their chat rooms.
    ListChats,
    /// Nothing was typed.
    Ignore,
    /// The line is no command.
    Unknown,
    /// Ctrl+C: stay.
    Interrupted,
    /// Ctrl+D: leave.
    EndOfInput,
    /// Reading failed: leave.
    ReadFailed,
}

/// What a trimmed line asks for.
pub open spec fn command_action(cmd: Seq<char>) -> ReplAction {
    if cmd == "q"@ || cmd == "quit"@ || cmd == "exit"@ {
        ReplAction::Quit
    } else if cmd == "h"@ || cmd == "help"@ {
        ReplAction::Help
    } else if cmd == "R"@ || cmd == "restart"@ {
        ReplAction::Request(DaemonCommand::Restart)
    } else if cmd == "S"@ || cmd == "stop"@ {
        ReplAction::Request(DaemonCommand::Stop)
    } else if cmd == "chats"@ || cmd == "g"@ || cmd == "G"@ || cmd == "groups"@ {
        ReplAction::ListChats
    } else if cmd.len() == 0 {
        ReplAction::Ignore
    } else {
        ReplAction::Unknown
    }
}

/// What an entered line asks for, read with surrounding whitespace removed.
pub fn interpret_input(input: &str) -> (a: ReplAction)
    ensures
        a == command_action(trim(input@)),
{
    let t = trim_str(input);
    let cmd = t.as_str();
    if str_eq(cmd, "q") || str_eq(cmd, "quit") || str_eq(cmd, "exit") {
        ReplAction::Quit
    } else if str_eq(cmd, "h") || str_eq(cmd, "help") {
        ReplAction::Help
    } else if str_eq(cmd, "R") || str_eq(cmd, "restart") {
        ReplAction::Request(DaemonCommand::Restart)
    } else if str_eq(cmd, "S") || str_eq(cmd, "stop") {
        ReplAction::Request(DaemonCommand::Stop)
    } else if str_eq(cmd, "chats") || str_eq(cmd, "g") || str_eq(cmd, "G") || str_eq(cmd, "groups") {
        ReplAction::ListChats
    } else if cmd.is_empty() {
        ReplAction::Ignore
    } else {
        ReplAction::Unknown
    }
}

/// What the console does on a signal from the line editor.
pub open spec fn signal_action(signal: ReplSignal) -> ReplAction {
    match signal {
        ReplSignal::Line(input) => command_action(trim(input@)),
        ReplSignal::CtrlC => ReplAction::Interrupted,
        ReplSignal::CtrlD => ReplAction::EndOfInput,
        ReplSignal::ReadError(_) => ReplAction::ReadFailed,
    }
}

/// What the console does on a signal from the line editor.
pub fn repl_action(signal: &ReplSignal) -> (a: ReplAction)
    ensures
        a == signal_action(*signal),
{
    match signal {
        ReplSignal::Line(input) => interpret_input(input.as_str()),
        ReplSignal::CtrlC => ReplAction::Interrupted,
        ReplSignal::CtrlD => ReplAction::EndOfInput,
        ReplSignal::ReadError(_) => ReplAction::ReadFailed,
    }
}

/// Whether the console closes after an action: on quitting, after a daemon request,
/// at the end of input and when reading fails.
pub open spec fn closes(a: ReplAction) -> bool {
    match a {
        ReplAction::Quit | ReplAction::Request(_) | ReplAction::EndOfInput | ReplAction::ReadFailed => true,
        _ => false,
    }
}

/// Whether the console closes after an action.
pub fn action_closes(a: &ReplAction) -> (r: bool)
    ensures
        r == closes(*a),
{
    match a {
        ReplAction::Quit | ReplAction::Request(_) | ReplAction::EndOfInput | ReplAction::ReadFailed => true,
        _ => false,
    }
}

/// The lines printed for `help`.
pub fn help_lines() -> (v: Vec<&'static str>)
    ensures
        v@.len() == 5,
        v@[0]@ == "Available commands:"@,
        v@[1]@ == "  h, help - Show this help message"@,
        v@[2]@ == "  q, quit, exit - Exit the REPL"@,
        v@[3]@ == "  R, restart - Restart the daemon"@,
        v@[4]@ == "  S, stop - Stop the daemon"@,
{
    vec![
        "Available commands:",
        "  h, help - Show this help message",
        "  q, quit, exit - Exit the REPL",
        "  R, restart - Restart the daemon",
        "  S, stop - Stop the daemon",
    ]
}

/// The answer to an unknown command.
pub fn unknown_command_message(input: &str) -> (m: String)
    ensures
        m@ == "Unknown command: "@ + trim(input@) + ". Type 'help' for available commands."@,
{
    let t = trim_str(input);
    concat3("Unknown command: ", t.as_str(), ". Type 'help' for available commands.")
}

/// How a daemon request went: whether it is reported as an error, and the message.
/// `sent` is `None` when the console has no channel to the daemon, else whether sending
/// worked (with the failure's text).
pub open spec fn request_report_spec(cmd: DaemonCommand, sent: Option<Result<(), Seq<char>>>) -> (bool, Seq<char>) {
    match sent {
        None => (true, "Daemon command channel unavailable."@),
        Some(Ok(_)) => (false, match cmd {
            DaemonCommand::Restart => "Restart requested. Closing REPL..."@,
            DaemonCommand::Stop => "Stop requested. Closing REPL..."@,
        }),
        Some(Err(e)) => (true, match cmd {
            DaemonCommand::Restart => "Failed to request daemon restart: "@ + e,
            DaemonCommand::Stop => "Failed to request daemon stop: "@ + e,
        }),
    }
}

/// The report of a daemon request.
pub fn request_report(cmd: DaemonCommand, sent: Option<Result<(), String>>) -> (r: (bool, String))
    ensures
        (r.0, r.1@) == request_report_spec(
            cmd,
            match sent {
                None => None,
                Some(Ok(u)) => Some(Ok(u)),
                Some(Err(e)) => Some(Err(e@)),
            },
        ),
{
    match sent {
        None => (true, owned("Daemon command channel unavailable.")),
        Some(Ok(_)) => (false, match cmd {
            DaemonCommand::Restart => owned("Restart requested. Closing REPL..."),
            DaemonCommand::Stop => owned("Stop requested. Closing REPL..."),
        }),
        Some(Err(e)) => (true, match cmd {
            DaemonCommand::Restart => crate::text::concat("Failed to request daemon restart: ", e.as_str()),
            DaemonCommand::Stop => crate::text::concat("Failed to request daemon stop: ", e.as_str()),
        }),
    }
}

/// What the daemon does on a request: it always shuts the running services down; after a
/// restart it starts them again, after a stop it exits. The message is the one it
/// prints.
pub fn daemon_command_effect(cmd: DaemonCommand) -> (r: (bool, &'static str))
    ensures
        r.0 == (cmd == DaemonCommand::Restart),
        cmd == DaemonCommand::Restart ==> r.1@ == "Restart requested via REPL — restarting services in-process..."@,
        cmd == DaemonCommand::Stop ==> r.1@ == "Stop requested via REPL. Shutting down daemon."@,
{
    match cmd {
        DaemonCommand::Restart => (true, "Restart requested via REPL — restarting services in-process..."),
        DaemonCommand::Stop => (false, "Stop requested via REPL. Shutting down daemon."),
    }
}

/// Whether a key press opens the console: `c` or `C`.
pub fn is_console_key(c: char) -> (r: bool)
    ensures
        r == (c == 'c' || c == 'C'),
{
    c == 'c' || c == 'C'
}

} // verus!
