//! Commands that are carried out without a server: the list of servers, their
//! credentials, and help.

use vstd::prelude::*;
use crate::client::ClientView;
use crate::client;
use crate::command::{Cmd, ReadCmd, ReadServerCmd, WriteCmd, WriteServerCmd};
use crate::command;
use crate::config::{Config, ConfigView};
use crate::config;
use crate::failure::Failure;
use crate::line::{Line, LineView, Step, StepView};
use crate::line;
use crate::text;
use crate::wire;

verus! {

/// The cheat sheet of the query syntax.
pub const QUERY_HELP: &'static str = "YouTrack query syntax:
  project: DEMO              #Unresolved | #Resolved | #me (assigned to me)
  State: Open               State: -Done (negate)   State: {In Progress} (multiword -> braces)
  Priority: Critical        assignee: me|login      reporter: login    type: Bug
  created: today            updated: {This week}    created: 2026-06-01 .. 2026-06-11
  summary: word             bare words = full-text search
  sort by: updated desc     sort by: priority asc
Terms combine with AND by default; use 'or' explicitly.
Examples:
  yt ls \"project: DEMO #Unresolved sort by: updated desc\"
  yt ls \"project: DEMO State: -Done assignee: me\"
  yt cmd \"State {In Progress} assignee me\" DEMO-12";

/// The permissions of the file that holds the configuration: its owner alone may read
/// and write it.
pub const CONFIG_MODE: u32 = 0o600;

/// What the configuration is loaded for.
pub enum Task {
    List,
    Auth { url: String, token: String, name: Option<String> },
    Default { name: String },
}

/// The mathematical model of a [`Task`].
pub enum TaskView {
    List,
    Auth { url: Seq<char>, token: Seq<char>, name: Option<Seq<char>> },
    Default { name: Seq<char> },
}

impl View for Task {
    type V = TaskView;

    open spec fn view(&self) -> TaskView {
        match self {
            Task::List => TaskView::List,
            Task::Auth { url, token, name } => TaskView::Auth {
                url: url@,
                token: token@,
                name: text::opt_text(*name),
            },
            Task::Default { name } => TaskView::Default { name: name@ },
        }
    }
}

/// What to do next for a local command. The text that `ReadToken` asks for goes to
/// [`on_token`], the file that `LoadConfig` asks for to [`on_config`]; once the text of
/// `SaveConfig` is written to a file with these permissions, its line is printed. `Update` is carried out by the steps
/// of an update.
pub enum LocalNext {
    ReadToken(String, Option<String>),
    LoadConfig(Task),
    SaveConfig(String, u32, String),
    Update(bool),
    Done,
    Fail(Failure),
}

/// The mathematical model of a [`LocalNext`].
pub enum LocalView {
    ReadToken(Seq<char>, Option<Seq<char>>),
    LoadConfig(TaskView),
    SaveConfig(Seq<char>, u32, Seq<char>),
    Update(bool),
    Done,
    Fail(Seq<char>),
}

impl View for LocalNext {
    type V = LocalView;

    open spec fn view(&self) -> LocalView {
        match self {
            LocalNext::ReadToken(u, n) => LocalView::ReadToken(u@, text::opt_text(*n)),
            LocalNext::LoadConfig(t) => LocalView::LoadConfig(t@),
            LocalNext::SaveConfig(t, m, l) => LocalView::SaveConfig(t@, *m, l@),
            LocalNext::Update(f) => LocalView::Update(*f),
            LocalNext::Done => LocalView::Done,
            LocalNext::Fail(e) => LocalView::Fail(e@),
        }
    }
}

// ---- meaning ----

/// The first step of a local command that reads.
pub open spec fn read_begun(cmd: ReadCmd) -> StepView<LocalView> {
    match cmd {
        ReadCmd::QueryHelp => line::saying(QUERY_HELP@, LocalView::Done),
        ReadCmd::Server(ReadServerCmd::Ls) => line::silent(LocalView::LoadConfig(TaskView::List)),
        _ => line::silent(LocalView::Done),
    }
}

/// The first step of a local command that writes.
pub open spec fn write_begun(cmd: WriteCmd) -> StepView<LocalView> {
    match cmd {
        WriteCmd::Update { force } => line::silent(LocalView::Update(force)),
        WriteCmd::Server(WriteServerCmd::Auth { url, token, name }) => if token@ == "-"@ {
            line::silent(LocalView::ReadToken(url@, text::opt_text(name)))
        } else {
            line::silent(
                LocalView::LoadConfig(
                    TaskView::Auth { url: url@, token: token@, name: text::opt_text(name) },
                ),
            )
        },
        WriteCmd::Server(WriteServerCmd::Default { name }) => line::silent(
            LocalView::LoadConfig(TaskView::Default { name: name@ }),
        ),
        _ => line::silent(LocalView::Done),
    }
}

/// The first step of a local command.
pub open spec fn begun(cmd: Cmd) -> StepView<LocalView> {
    match cmd {
        Cmd::Read(r) => read_begun(r),
        Cmd::Write(w) => write_begun(w),
    }
}

/// What follows once the token `t` came from the standard input, of which white space at
/// the end does not count.
pub open spec fn token_known(url: Seq<char>, name: Option<Seq<char>>, t: Seq<char>) -> StepView<
    LocalView,
> {
    line::silent(
        LocalView::LoadConfig(TaskView::Auth { url, token: text::trimmed_end(t), name }),
    )
}

/// The name under which credentials are saved.
pub open spec fn server_name(name: Option<Seq<char>>) -> Seq<char> {
    text::or_text(name, "default"@)
}

/// The warning that is due where credentials replace those of the server `default`.
pub open spec fn warning(c: ConfigView, name: Seq<char>) -> Seq<LineView> {
    if name == "default"@ && c.servers.contains_key("default"@) {
        seq![
            LineView::Note(
                "warning: overwriting existing 'default' server (pass a name to keep both)"@,
            ),
        ]
    } else {
        Seq::empty()
    }
}

/// The lines `s`, as they are.
pub open spec fn plain_lines(s: Seq<Seq<char>>) -> Seq<LineView> {
    s.map_values(|t: Seq<char>| LineView::Plain(t))
}

/// What becomes of the configuration `c`.
pub open spec fn changed(t: TaskView, c: ConfigView) -> ConfigView {
    match t {
        TaskView::List => c,
        TaskView::Auth { url, token, name } => config::with_server(
            c,
            server_name(name),
            url,
            token,
        ),
        TaskView::Default { name } => ConfigView { default: Some(name), servers: c.servers },
    }
}

/// What follows once the configuration `c`, kept in the file `path`, is loaded.
pub open spec fn config_known(t: TaskView, c: ConfigView, path: Seq<char>) -> StepView<LocalView> {
    match t {
        TaskView::List => StepView {
            lines: plain_lines(config::server_lines(c)),
            next: LocalView::Done,
        },
        TaskView::Auth { url, token, name } => {
            let n = server_name(name);
            StepView {
                lines: warning(c, n),
                next: LocalView::SaveConfig(
                    wire::pretty(config::stored(changed(t, c))),
                    CONFIG_MODE,
                    "saved server '"@ + n + "' to "@ + path,
                ),
            }
        },
        TaskView::Default { name } => if c.servers.contains_key(name) {
            line::silent(
                LocalView::SaveConfig(
                    wire::pretty(config::stored(changed(t, c))),
                    CONFIG_MODE,
                    "default server is now '"@ + name + "'"@,
                ),
            )
        } else {
            line::silent(
                LocalView::Fail(
                    "no server named '"@ + name + "': run `yt read server ls` to list"@,
                ),
            )
        },
    }
}

/// What follows once the configuration was to be loaded.
pub open spec fn load_known(t: TaskView, c: Result<ConfigView, Seq<char>>, path: Seq<char>) -> StepView<
    LocalView,
> {
    match c {
        Ok(c) => config_known(t, c, path),
        Err(e) => line::silent(LocalView::Fail(e)),
    }
}

// ---- laws ----

/// A local command that reads neither saves the configuration nor replaces the
/// program.
pub proof fn law_reading_saves_nothing(
    cmd: ReadCmd,
    c: Result<ConfigView, Seq<char>>,
    path: Seq<char>,
)
    ensures
        match read_begun(cmd).next {
            LocalView::Done => true,
            LocalView::LoadConfig(t) => {
                let n = load_known(t, c, path).next;
                n is Done || n is Fail
            },
            _ => false,
        },
{
}

/// Credentials that were saved are those that are used when their server is asked for,
/// and also when none is asked for where they are the first of all.
pub proof fn law_saved_credentials_are_used(
    c: ConfigView,
    url: Seq<char>,
    token: Seq<char>,
    name: Option<Seq<char>>,
    file: Seq<char>,
    path: Seq<char>,
)
    requires
        wire::reads_as(
            file,
            config::stored(config::with_server(c, server_name(name), url, token)),
        ),
    ensures
        ({
            let n = server_name(name);
            let loaded = config::loaded(Some(file), path);
            let saved = ClientView { base: client::base_url(url), token };
            &&& forall|env_url: Option<Seq<char>>, env_token: Option<Seq<char>>| #[trigger]
                client::resolved(Some(n), env_url, env_token, loaded) == Ok::<
                    ClientView,
                    Seq<char>,
                >(saved)
            &&& c == config::no_servers() ==> client::resolved(None, None, None, loaded) == Ok::<
                ClientView,
                Seq<char>,
            >(saved)
        }),
{
    config::law_load_gives_back_what_save_wrote(
        config::with_server(c, server_name(name), url, token),
        file,
        path,
    );
}

// ---- operations ----

/// The first step of a command that is carried out without a server; any other command
/// is handed back.
pub fn run_local(cmd: Cmd) -> (r: Result<Step<LocalNext>, Cmd>)
    ensures
        match r {
            Ok(step) => command::is_local(cmd) && step@ == begun(cmd),
            Err(c) => !command::is_local(cmd) && c == cmd,
        },
{
    match cmd {
        Cmd::Read(ReadCmd::QueryHelp) => Ok(line::say(QUERY_HELP.to_owned(), LocalNext::Done)),
        Cmd::Read(ReadCmd::Server(ReadServerCmd::Ls)) => Ok(
            line::quiet(LocalNext::LoadConfig(Task::List)),
        ),
        Cmd::Write(WriteCmd::Update { force }) => Ok(line::quiet(LocalNext::Update(force))),
        Cmd::Write(WriteCmd::Server(WriteServerCmd::Auth { url, token, name })) => {
            if text::same(token.as_str(), "-") {
                Ok(line::quiet(LocalNext::ReadToken(url, name)))
            } else {
                Ok(line::quiet(LocalNext::LoadConfig(Task::Auth { url, token, name })))
            }
        },
        Cmd::Write(WriteCmd::Server(WriteServerCmd::Default { name })) => Ok(
            line::quiet(LocalNext::LoadConfig(Task::Default { name })),
        ),
        _ => Err(cmd),
    }
}

/// What to do once the token came from the standard input.
pub fn on_token(url: String, name: Option<String>, t: &str) -> (step: Step<LocalNext>)
    ensures
        step@ == token_known(url@, text::opt_text(name), t@),
{
    line::quiet(LocalNext::LoadConfig(Task::Auth { url, token: text::trim_end(t), name }))
}

/// What to do once the file `path` of the configuration was read, where there is one.
pub fn on_config(t: Task, file: Option<&str>, path: &str) -> (step: Step<LocalNext>)
    ensures
        step@ == load_known(t@, config::loaded(text::opt_str(file), path@), path@),
        config::loaded(text::opt_str(file), path@) matches Ok(c) ==> step.next matches
            LocalNext::SaveConfig(saved, mode, _) ==> mode == 0o600 && wire::reads_as(
            saved@,
            config::stored(changed(t@, c)),
        ),
{
    let mut c = match Config::load(file, path) {
        Ok(c) => c,
        Err(e) => {
            return line::quiet(LocalNext::Fail(e));
        },
    };
    match t {
        Task::List => {
            let list = c.listing();
            let ghost told = config::server_lines(c@);
            let mut lines = line::nothing();
            let mut i: usize = 0;
            assert(line::views(lines@) =~= plain_lines(told).take(0));
            while i < list.len()
                invariant
                    i <= list@.len(),
                    told == text::texts(list@),
                    line::views(lines@) == plain_lines(told).take(i as int),
                decreases list@.len() - i,
            {
                line::put(&mut lines, Line::Plain(list[i].clone()));
                i += 1;
                assert(line::views(lines@) =~= plain_lines(told).take(i as int));
            }
            assert(plain_lines(told).take(told.len() as int) =~= plain_lines(told));
            Step { lines, next: LocalNext::Done }
        },
        Task::Auth { url, token, name } => {
            let named = match &name {
                Some(n) => Some(n.as_str()),
                None => None,
            };
            let (warned, told) = c.auth(url.as_str(), token.as_str(), named, path);
            let mut lines = line::nothing();
            if let Some(w) = warned {
                line::put(&mut lines, Line::Note(w));
            }
            match c.save() {
                Ok(text) => {
                    let step = Step { lines, next: LocalNext::SaveConfig(text, CONFIG_MODE, told) };
                    assert(step@ =~= load_known(
                        t@,
                        config::loaded(text::opt_str(file), path@),
                        path@,
                    ));
                    step
                },
                Err(e) => line::quiet(LocalNext::Fail(e)),
            }
        },
        Task::Default { name } => match c.set_default(name.as_str()) {
            Ok(told) => match c.save() {
                Ok(text) => line::quiet(LocalNext::SaveConfig(text, CONFIG_MODE, told)),
                Err(e) => line::quiet(LocalNext::Fail(e)),
            },
            Err(e) => line::quiet(LocalNext::Fail(e)),
        },
    }
}

} // verus!
