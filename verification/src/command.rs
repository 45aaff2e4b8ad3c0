//! The command vocabulary and the events that carry it between threads.

use vstd::prelude::*;

verus! {

/// One command of the closed vocabulary.
#[derive(Clone, Copy, Debug, PartialEq, Eq, Structural)]
pub enum Command {
    Power,
    Start,
    Stop,
}

impl Command {
    /// The token of a command: the name of the region it clicks.
    pub open spec fn token_spec(self) -> Seq<char> {
        match self {
            Command::Power => "power"@,
            Command::Start => "start"@,
            Command::Stop => "stop"@,
        }
    }

    /// The token of a command: the name of the region it clicks.
    pub fn token(&self) -> (r: &'static str)
        ensures
            r@ == self.token_spec(),
    {
        match self {
            Command::Power => "power",
            Command::Start => "start",
            Command::Stop => "stop",
        }
    }
}

/// A command on its way from the capture thread to the automation thread.
#[derive(Clone, Copy, Debug, PartialEq, Eq, Structural)]
pub enum AppCommand {
    Click(Command),
}

impl AppCommand {
    /// The command that the event carries.
    pub open spec fn command_spec(self) -> Command {
        match self {
            AppCommand::Click(c) => c,
        }
    }

    /// The command that the event carries.
    pub fn command(&self) -> (r: Command)
        ensures
            r == self.command_spec(),
    {
        match self {
            AppCommand::Click(c) => *c,
        }
    }
}

} // verus!
