//! The subcommands of the snapshot runner.
use vstd::prelude::*;
use crate::text::copy_opt;

verus! {

/// What the snapshot runner is asked to do.
#[derive(Debug)]
pub enum Command {
    /// Create a snapshot by running a command.
    New { name: String, command: String, timeout: Option<u64>, stdin: Option<String>, outdir: String },
    /// Re-run a snapshot's command, possibly renamed, and overwrite it.
    Update {
        name: String,
        new_name: Option<String>,
        command: String,
        timeout: Option<u64>,
        stdin: Option<String>,
        outdir: String,
    },
    /// Run the snapshots of a directory.
    Run { fail_fast: bool, snapshots: Option<String> },
}

/// A command by the text of its fields.
pub enum CommandView {
    New { name: Seq<char>, command: Seq<char>, timeout: Option<u64>, stdin: Option<Seq<char>>, outdir: Seq<char> },
    Update {
        name: Seq<char>,
        new_name: Option<Seq<char>>,
        command: Seq<char>,
        timeout: Option<u64>,
        stdin: Option<Seq<char>>,
        outdir: Seq<char>,
    },
    Run { fail_fast: bool, snapshots: Option<Seq<char>> },
}

impl View for Command {
    type V = CommandView;

    open spec fn view(&self) -> CommandView {
        match self {
            Command::New { name, command, timeout, stdin, outdir } => CommandView::New {
                name: name@,
                command: command@,
                timeout: *timeout,
                stdin: stdin.deep_view(),
                outdir: outdir@,
            },
            Command::Update { name, new_name, command, timeout, stdin, outdir } => CommandView::Update {
                name: name@,
                new_name: new_name.deep_view(),
                command: command@,
                timeout: *timeout,
                stdin: stdin.deep_view(),
                outdir: outdir@,
            },
            Command::Run { fail_fast, snapshots } => CommandView::Run {
                fail_fast: *fail_fast,
                snapshots: snapshots.deep_view(),
            },
        }
    }
}

impl Command {
    /// A copy of the command.
    pub fn copy(&self) -> (r: Command)
        ensures
            r@ == self@,
    {
        match self {
            Command::New { name, command, timeout, stdin, outdir } => Command::New {
                name: name.clone(),
                command: command.clone(),
                timeout: *timeout,
                stdin: copy_opt(stdin),
                outdir: outdir.clone(),
            },
            Command::Update { name, new_name, command, timeout, stdin, outdir } => Command::Update {
                name: name.clone(),
                new_name: copy_opt(new_name),
                command: command.clone(),
                timeout: *timeout,
                stdin: copy_opt(stdin),
                outdir: outdir.clone(),
            },
            Command::Run { fail_fast, snapshots } => Command::Run {
                fail_fast: *fail_fast,
                snapshots: copy_opt(snapshots),
            },
        }
    }
}

/// The parsed command line of the snapshot runner.
#[derive(Debug)]
pub struct Cli {
    pub command: Option<Command>,
}

impl Cli {
    /// The subcommand to carry out: the one given, else running the snapshots
    /// without failing fast.
    pub fn command(&self) -> (r: Command)
        ensures
            r@ == match self.command {
                Some(c) => c@,
                None => CommandView::Run { fail_fast: false, snapshots: None },
            },
    {
        match &self.command {
            Some(c) => c.copy(),
            None => Command::Run { fail_fast: false, snapshots: None },
        }
    }
}

} // verus!
