//! The commands: a tier that only reads and one that writes, each by subject and
//! verb.

use vstd::prelude::*;

verus! {

/// A command.
pub enum Cmd {
    Read(ReadCmd),
    Write(WriteCmd),
}

/// A command that changes nothing on the server, in the configuration or in the
/// program.
pub enum ReadCmd {
    Issue(ReadIssueCmd),
    Project(ReadProjectCmd),
    User(ReadUserCmd),
    Server(ReadServerCmd),
    QueryHelp,
}

/// What is read of issues.
pub enum ReadIssueCmd {
    Ls { query: String, limit: usize, full: bool, merged_pr: bool },
    Show { id: String, comments: bool, pr: bool },
    Attachments { id: String, out: Option<Option<String>> },
    Comments { id: String },
    Links { id: String },
    Tags,
}

/// What is read of projects.
pub enum ReadProjectCmd {
    Ls,
    Fields { project: String },
}

/// What is read of users.
pub enum ReadUserCmd {
    Ls { query: String },
    Me,
}

/// What is read of the configured servers.
pub enum ReadServerCmd {
    Ls,
}

/// A command that changes something.
pub enum WriteCmd {
    Issue(WriteIssueCmd),
    Project(WriteProjectCmd),
    Server(WriteServerCmd),
    Update { force: bool },
}

/// What is changed about issues.
pub enum WriteIssueCmd {
    New { project: String, summary: String, desc: Option<String>, field: Vec<String> },
    Edit { id: String, summary: Option<String>, desc: Option<String> },
    Attach { id: String, files: Vec<String>, comment: Option<String> },
    Comment { id: String, text: Option<String> },
    Link { id: String, phrase: String, target: String },
    Unlink { id: String, phrase: String, target: String },
    Cmd { command: String, ids: Vec<String>, comment: Option<String> },
    Tag { id: String, tag: String },
    Untag { id: String, tag: String },
}

/// What is changed about projects.
pub enum WriteProjectCmd {
    Create { short: String, name: String },
}

/// What is changed about the configured servers.
pub enum WriteServerCmd {
    Auth { url: String, token: String, name: Option<String> },
    Default { name: String },
}

/// Whether a command is carried out without a server.
pub open spec fn is_local(cmd: Cmd) -> bool {
    match cmd {
        Cmd::Read(ReadCmd::QueryHelp) => true,
        Cmd::Read(ReadCmd::Server(_)) => true,
        Cmd::Write(WriteCmd::Server(_)) => true,
        Cmd::Write(WriteCmd::Update { .. }) => true,
        _ => false,
    }
}

impl Cmd {
    /// Whether the command is carried out without a server.
    pub fn local(&self) -> (r: bool)
        ensures
            r == is_local(*self),
    {
        match self {
            Cmd::Read(ReadCmd::QueryHelp) => true,
            Cmd::Read(ReadCmd::Server(_)) => true,
            Cmd::Write(WriteCmd::Server(_)) => true,
            Cmd::Write(WriteCmd::Update { .. }) => true,
            _ => false,
        }
    }
}

} // verus!
