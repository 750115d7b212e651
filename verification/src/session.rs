//! How a command is carried out on a server: what is sent, what is made of each reply,
//! and what is printed.

use vstd::prelude::*;
use crate::client::{BodyView, Client, ClientView, Download, Reply, Request, RequestView};
use crate::client;
use crate::command::{
    Cmd, ReadCmd, ReadIssueCmd, ReadProjectCmd, ReadUserCmd, WriteCmd, WriteIssueCmd,
    WriteProjectCmd,
};
use crate::command;
use crate::failure::Failure;
use crate::fields;
use crate::json::{Json, JsonView};
use crate::json;
use crate::line::{Line, LineView, Step, StepView};
use crate::line;
use crate::lookup;
use crate::number;
use crate::report;
use crate::text;
use crate::wire;

verus! {

// ---- what the server is asked to tell ----

pub const LIST_FIELDS: &'static str = "idReadable,summary,customFields(name,value(name,login,text))";

pub const ISSUE_FIELDS: &'static str =
    "idReadable,summary,description,created,updated,reporter(login),customFields(name,value(name,login,text))";

pub const COMMENT_FIELDS: &'static str = "created,text,author(login)";

pub const LINK_FIELDS: &'static str =
    "id,direction,linkType(name,sourceToTarget,targetToSource),issues(idReadable,summary)";

/// Pull requests are told in the stream of activities; the state of one is told by its
/// id, for its name is null.
pub const PR_ACTIVITY_FIELDS: &'static str = "added(state(id),url)";

// ---- stages ----

/// What a reply is awaited for.
pub enum Stage {
    Rows { limit: usize, full: bool, merged_pr: bool },
    Merged { issues: Vec<Json>, verdicts: Vec<bool>, limit: usize, full: bool },
    Issue { id: String, comments: bool, pr: bool },
    IssueLinks { id: String, comments: bool, pr: bool },
    IssueChanges { id: String, comments: bool },
    Comments,
    Links,
    Attachments { out: Option<String> },
    Tags,
    Projects,
    FieldsProject { project: String },
    Fields { short: String },
    SeenFields { short: String },
    Me,
    Users,
    NewProject { project: String, summary: String, desc: Option<String>, fields: Vec<String> },
    NewFields { short: String, body: Json, fields: Vec<String> },
    NewSeenFields { body: Json, fields: Vec<String> },
    Created { fields: Vec<String> },
    Commanded { id: String },
    Report(String),
    LinkGroup { id: String, phrase: String, target: String },
    UnlinkGroup { id: String, phrase: String, target: String },
    UnlinkTarget { id: String, group: String, target: String },
    Tag { id: String, tag: String },
    Untag { id: String, tag: String },
    Leader { short: String, name: String },
    ProjectCreated { short: String },
    Uploaded { path: String, rest: Vec<String> },
}

/// The mathematical model of a [`Stage`].
pub enum StageView {
    Rows { limit: nat, full: bool, merged_pr: bool },
    Merged { issues: Seq<JsonView>, verdicts: Seq<bool>, limit: nat, full: bool },
    Issue { id: Seq<char>, comments: bool, pr: bool },
    IssueLinks { id: Seq<char>, comments: bool, pr: bool },
    IssueChanges { id: Seq<char>, comments: bool },
    Comments,
    Links,
    Attachments { out: Option<Seq<char>> },
    Tags,
    Projects,
    FieldsProject { project: Seq<char> },
    Fields { short: Seq<char> },
    SeenFields { short: Seq<char> },
    Me,
    Users,
    NewProject {
        project: Seq<char>,
        summary: Seq<char>,
        desc: Option<Seq<char>>,
        fields: Seq<Seq<char>>,
    },
    NewFields { short: Seq<char>, body: JsonView, fields: Seq<Seq<char>> },
    NewSeenFields { body: JsonView, fields: Seq<Seq<char>> },
    Created { fields: Seq<Seq<char>> },
    Commanded { id: Seq<char> },
    Report(Seq<char>),
    LinkGroup { id: Seq<char>, phrase: Seq<char>, target: Seq<char> },
    UnlinkGroup { id: Seq<char>, phrase: Seq<char>, target: Seq<char> },
    UnlinkTarget { id: Seq<char>, group: Seq<char>, target: Seq<char> },
    Tag { id: Seq<char>, tag: Seq<char> },
    Untag { id: Seq<char>, tag: Seq<char> },
    Leader { short: Seq<char>, name: Seq<char> },
    ProjectCreated { short: Seq<char> },
    Uploaded { path: Seq<char>, rest: Seq<Seq<char>> },
}

impl View for Stage {
    type V = StageView;

    open spec fn view(&self) -> StageView {
        match self {
            Stage::Rows { limit, full, merged_pr } => StageView::Rows {
                limit: *limit as nat,
                full: *full,
                merged_pr: *merged_pr,
            },
            Stage::Merged { issues, verdicts, limit, full } => StageView::Merged {
                issues: json::array_view(issues@),
                verdicts: verdicts@,
                limit: *limit as nat,
                full: *full,
            },
            Stage::Issue { id, comments, pr } => StageView::Issue {
                id: id@,
                comments: *comments,
                pr: *pr,
            },
            Stage::IssueLinks { id, comments, pr } => StageView::IssueLinks {
                id: id@,
                comments: *comments,
                pr: *pr,
            },
            Stage::IssueChanges { id, comments } => StageView::IssueChanges {
                id: id@,
                comments: *comments,
            },
            Stage::Comments => StageView::Comments,
            Stage::Links => StageView::Links,
            Stage::Attachments { out } => StageView::Attachments { out: text::opt_text(*out) },
            Stage::Tags => StageView::Tags,
            Stage::Projects => StageView::Projects,
            Stage::FieldsProject { project } => StageView::FieldsProject { project: project@ },
            Stage::Fields { short } => StageView::Fields { short: short@ },
            Stage::SeenFields { short } => StageView::SeenFields { short: short@ },
            Stage::Me => StageView::Me,
            Stage::Users => StageView::Users,
            Stage::NewProject { project, summary, desc, fields } => StageView::NewProject {
                project: project@,
                summary: summary@,
                desc: text::opt_text(*desc),
                fields: text::texts(fields@),
            },
            Stage::NewFields { short, body, fields } => StageView::NewFields {
                short: short@,
                body: body@,
                fields: text::texts(fields@),
            },
            Stage::NewSeenFields { body, fields } => StageView::NewSeenFields {
                body: body@,
                fields: text::texts(fields@),
            },
            Stage::Created { fields } => StageView::Created { fields: text::texts(fields@) },
            Stage::Commanded { id } => StageView::Commanded { id: id@ },
            Stage::Report(t) => StageView::Report(t@),
            Stage::LinkGroup { id, phrase, target } => StageView::LinkGroup {
                id: id@,
                phrase: phrase@,
                target: target@,
            },
            Stage::UnlinkGroup { id, phrase, target } => StageView::UnlinkGroup {
                id: id@,
                phrase: phrase@,
                target: target@,
            },
            Stage::UnlinkTarget { id, group, target } => StageView::UnlinkTarget {
                id: id@,
                group: group@,
                target: target@,
            },
            Stage::Tag { id, tag } => StageView::Tag { id: id@, tag: tag@ },
            Stage::Untag { id, tag } => StageView::Untag { id: id@, tag: tag@ },
            Stage::Leader { short, name } => StageView::Leader { short: short@, name: name@ },
            Stage::ProjectCreated { short } => StageView::ProjectCreated { short: short@ },
            Stage::Uploaded { path, rest } => StageView::Uploaded {
                path: path@,
                rest: text::texts(rest@),
            },
        }
    }
}

/// What a text from the standard input is awaited for.
pub enum Prompt {
    NewDesc { pid: String, short: String, summary: String, fields: Vec<String> },
    EditDesc { id: String, summary: Option<String> },
    CommentText { id: String },
}

/// The mathematical model of a [`Prompt`].
pub enum PromptView {
    NewDesc {
        pid: Seq<char>,
        short: Seq<char>,
        summary: Seq<char>,
        fields: Seq<Seq<char>>,
    },
    EditDesc { id: Seq<char>, summary: Option<Seq<char>> },
    CommentText { id: Seq<char> },
}

impl View for Prompt {
    type V = PromptView;

    open spec fn view(&self) -> PromptView {
        match self {
            Prompt::NewDesc { pid, short, summary, fields } => PromptView::NewDesc {
                pid: pid@,
                short: short@,
                summary: summary@,
                fields: text::texts(fields@),
            },
            Prompt::EditDesc { id, summary } => PromptView::EditDesc {
                id: id@,
                summary: text::opt_text(*summary),
            },
            Prompt::CommentText { id } => PromptView::CommentText { id: id@ },
        }
    }
}

/// Attachments yet to be downloaded into a directory.
pub struct Downloads {
    pub dir: String,
    pub list: Vec<Json>,
}

/// The mathematical model of [`Downloads`].
pub struct DownloadsView {
    pub dir: Seq<char>,
    pub list: Seq<JsonView>,
}

impl View for Downloads {
    type V = DownloadsView;

    open spec fn view(&self) -> DownloadsView {
        DownloadsView { dir: self.dir@, list: json::array_view(self.list@) }
    }
}

/// A file to be uploaded to `path`, and those behind it.
pub struct Uploads {
    pub path: String,
    pub file: String,
    pub rest: Vec<String>,
}

/// The mathematical model of [`Uploads`].
pub struct UploadsView {
    pub path: Seq<char>,
    pub file: Seq<char>,
    pub rest: Seq<Seq<char>>,
}

impl View for Uploads {
    type V = UploadsView;

    open spec fn view(&self) -> UploadsView {
        UploadsView { path: self.path@, file: self.file@, rest: text::texts(self.rest@) }
    }
}

/// How a file was read: its name and what it holds, or what came in the way.
pub enum FileRead {
    Read(String, Vec<u8>),
    Unnamed,
    Unreadable(String),
}

/// What to do next for a command. The reply to `Send` goes to [`on_reply`], the text
/// that `ReadInput` asks for to [`on_input`], the directory that `MakeDir` asks for
/// to [`next_download`], what `Fetch` brings to [`on_download`], what `Save` wrote to
/// [`on_saved`], and what `ReadFile` read to [`on_file`]. `Done` tells whether the
/// notice of a newer release is due.
pub enum Next {
    Send(Request, Stage),
    ReadInput(Prompt),
    MakeDir(Downloads),
    Fetch(Request, String, Downloads),
    Save(String, Vec<u8>, Downloads),
    ReadFile(Uploads),
    Done(bool),
    Fail(Failure),
}

/// The mathematical model of a [`Next`].
pub enum NextView {
    Send(RequestView, StageView),
    ReadInput(PromptView),
    MakeDir(DownloadsView),
    Fetch(RequestView, Seq<char>, DownloadsView),
    Save(Seq<char>, Seq<u8>, DownloadsView),
    ReadFile(UploadsView),
    Done(bool),
    Fail(Seq<char>),
}

impl View for Next {
    type V = NextView;

    open spec fn view(&self) -> NextView {
        match self {
            Next::Send(r, s) => NextView::Send(r@, s@),
            Next::ReadInput(p) => NextView::ReadInput(p@),
            Next::MakeDir(d) => NextView::MakeDir(d@),
            Next::Fetch(r, n, d) => NextView::Fetch(r@, n@, d@),
            Next::Save(n, b, d) => NextView::Save(n@, b@, d@),
            Next::ReadFile(u) => NextView::ReadFile(u@),
            Next::Done(b) => NextView::Done(*b),
            Next::Fail(e) => NextView::Fail(e@),
        }
    }
}

// ---- meaning: requests ----

/// The request for the issues that `query` finds, `top` at most.
pub open spec fn issues_request(
    c: ClientView,
    query: Seq<char>,
    what: Seq<char>,
    top: Seq<char>,
) -> RequestView {
    client::request(c, "GET"@, "issues"@).ask("query"@, query).ask("fields"@, what).ask(
        "$top"@,
        top,
    )
}

/// The request for `what` of `path`.
pub open spec fn get_request(c: ClientView, path: Seq<char>, what: Seq<char>) -> RequestView {
    client::request(c, "GET"@, path).ask("fields"@, what)
}

/// The request for the activities of the issue `id` that are about pull requests.
pub open spec fn activities_request(c: ClientView, id: Seq<char>) -> RequestView {
    client::request(c, "GET"@, "issues/"@ + id + "/activities"@).ask(
        "categories"@,
        "PullRequestChangeCategory"@,
    ).ask("fields"@, PR_ACTIVITY_FIELDS@)
}

/// The request for the comments on the issue `id`.
pub open spec fn comments_request(c: ClientView, id: Seq<char>) -> RequestView {
    get_request(c, "issues/"@ + id + "/comments"@, COMMENT_FIELDS@)
}

/// The request for the links of the issue `id`.
pub open spec fn links_request(c: ClientView, id: Seq<char>) -> RequestView {
    get_request(c, "issues/"@ + id + "/links"@, LINK_FIELDS@)
}

/// The request for the tags.
pub open spec fn tags_request(c: ClientView) -> RequestView {
    get_request(c, "tags"@, "id,name"@).ask("$top"@, "500"@)
}

/// The request for the projects by which one is found.
pub open spec fn projects_request(c: ClientView) -> RequestView {
    get_request(c, "admin/projects"@, "id,shortName,name"@).ask("$top"@, "500"@)
}

/// The request that creates an issue.
pub open spec fn create_request(c: ClientView, body: JsonView) -> RequestView {
    client::request(c, "POST"@, "issues"@).carry(body).ask("fields"@, "idReadable"@)
}

/// The request that applies a command.
pub open spec fn command_request(c: ClientView, body: JsonView) -> RequestView {
    client::request(c, "POST"@, "commands"@).carry(body)
}

// ---- meaning: steps ----

/// The step that sends a request.
pub open spec fn sends(r: RequestView, s: StageView) -> StepView<NextView> {
    line::silent(NextView::Send(r, s))
}

/// The step that fails.
pub open spec fn fails(message: Seq<char>) -> StepView<NextView> {
    line::silent(NextView::Fail(message))
}

/// The step that prints the last lines.
pub open spec fn ends(lines: Seq<LineView>) -> StepView<NextView> {
    StepView { lines, next: NextView::Done(true) }
}

/// The end of a list of issues: no notice is due where there is none.
pub open spec fn rows_end(rows: Seq<JsonView>, fetched: nat, limit: nat, full: bool) -> StepView<
    NextView,
> {
    StepView {
        lines: report::listing(rows, fetched, limit, full),
        next: NextView::Done(rows.len() > 0),
    }
}

/// The next of the issues whose pull requests are to be looked at, given the verdicts
/// on those before it; the list of those with a merged one once all are known.
pub open spec fn rows_next(
    c: ClientView,
    issues: Seq<JsonView>,
    verdicts: Seq<bool>,
    limit: nat,
    full: bool,
) -> StepView<NextView> {
    if verdicts.len() < issues.len() {
        sends(
            activities_request(c, issues[verdicts.len() as int].text_or("idReadable"@, ""@)),
            StageView::Merged { issues, verdicts, limit, full },
        )
    } else {
        rows_end(report::kept(issues, verdicts), issues.len(), limit, full)
    }
}

/// What follows `lines` about the issue `id`: its comments, where they are wanted.
pub open spec fn comments_next(
    c: ClientView,
    id: Seq<char>,
    comments: bool,
    lines: Seq<LineView>,
) -> StepView<NextView> {
    if comments {
        StepView {
            lines: lines + line::only("\n-- comments --"@),
            next: NextView::Send(comments_request(c, id), StageView::Comments),
        }
    } else {
        ends(lines)
    }
}

/// The links of an issue that is shown, under a heading; nothing where it has none.
pub open spec fn links_shown(groups: Seq<JsonView>) -> Seq<LineView> {
    if groups.len() > 0 {
        line::only("\n-- links --"@) + report::link_lines(groups)
    } else {
        Seq::empty()
    }
}

/// What follows the links of the issue `id`: its pull requests, where they are wanted,
/// else its comments.
pub open spec fn links_next(
    c: ClientView,
    id: Seq<char>,
    comments: bool,
    pr: bool,
    groups: Seq<JsonView>,
) -> StepView<NextView> {
    if pr {
        StepView {
            lines: links_shown(groups),
            next: NextView::Send(
                activities_request(c, id),
                StageView::IssueChanges { id, comments },
            ),
        }
    } else {
        comments_next(c, id, comments, links_shown(groups))
    }
}

/// What to do for the attachments `list`: nothing, list them, or download them.
pub open spec fn attachments_next(list: Seq<JsonView>, out: Option<Seq<char>>) -> StepView<
    NextView,
> {
    if list.len() == 0 {
        line::saying("no attachments"@, NextView::Done(false))
    } else {
        match out {
            None => ends(report::attachment_lines(list)),
            Some(dir) => line::silent(NextView::MakeDir(DownloadsView { dir, list })),
        }
    }
}

/// The name under which an attachment is kept.
pub open spec fn attachment_name(a: JsonView) -> Seq<char> {
    a.text_or("name"@, "attachment"@)
}

/// The next attachment to download.
pub open spec fn download_next(c: ClientView, d: DownloadsView) -> NextView {
    if d.list.len() == 0 {
        NextView::Done(true)
    } else {
        match d.list[0].member("url"@).text() {
            Some(url) => NextView::Fetch(
                client::file_request(c, url),
                attachment_name(d.list[0]),
                DownloadsView { dir: d.dir, list: d.list.drop_first() },
            ),
            None => NextView::Fail(
                "attachment '"@ + attachment_name(d.list[0]) + "' has no url"@,
            ),
        }
    }
}

/// What follows a download: the file is written.
pub open spec fn download_done(
    name: Seq<char>,
    d: DownloadsView,
    told: Result<Seq<u8>, Seq<char>>,
) -> StepView<NextView> {
    match told {
        Ok(b) => line::silent(NextView::Save(name, b, d)),
        Err(e) => fails(e),
    }
}

/// What follows a file that was written: its path and size are told, and the next one
/// is downloaded.
pub open spec fn save_done(c: ClientView, path: Seq<char>, size: nat, d: DownloadsView) -> StepView<
    NextView,
> {
    line::saying(path + "  "@ + number::decimal(size), download_next(c, d))
}

/// The next file to upload.
pub open spec fn upload_next(path: Seq<char>, files: Seq<Seq<char>>) -> NextView {
    if files.len() == 0 {
        NextView::Done(true)
    } else {
        NextView::ReadFile(UploadsView { path, file: files[0], rest: files.drop_first() })
    }
}

/// What follows a file that was read: it is uploaded.
pub open spec fn file_known(c: ClientView, u: UploadsView, f: FileRead) -> StepView<NextView> {
    match f {
        FileRead::Unnamed => fails("bad file name: "@ + u.file),
        FileRead::Unreadable(e) => fails("cannot read "@ + u.file + ": "@ + e@),
        FileRead::Read(name, data) => sends(
            client::upload_request(c, u.path, name@, data@).ask("fields"@, "id,name"@),
            StageView::Uploaded { path: u.path, rest: u.rest },
        ),
    }
}

/// An object with a member more.
pub open spec fn with_member(v: JsonView, key: Seq<char>, m: JsonView) -> JsonView {
    match v {
        JsonView::Object(o) => JsonView::Object(o.insert(key, m)),
        _ => v,
    }
}

/// An object with a text more, where there is one.
pub open spec fn with_text(v: JsonView, key: Seq<char>, t: Option<Seq<char>>) -> JsonView {
    match t {
        Some(x) => with_member(v, key, JsonView::Text(x)),
        None => v,
    }
}

/// The object without members.
pub open spec fn empty_object() -> JsonView {
    JsonView::Object(Map::empty())
}

/// The issue to create in the project `pid`.
pub open spec fn new_body(pid: Seq<char>, summary: Seq<char>, desc: Option<Seq<char>>) -> JsonView {
    with_text(
        with_text(
            with_member(empty_object(), "project"@, fields::single("id"@, pid)),
            "summary"@,
            Some(summary),
        ),
        "description"@,
        desc,
    )
}

/// What follows once it is known what issue to create in the project `pid`: it is
/// created, unless the types of its fields have to be known first.
pub open spec fn new_next(
    c: ClientView,
    pid: Seq<char>,
    short: Seq<char>,
    body: JsonView,
    given: Seq<Seq<char>>,
) -> StepView<NextView> {
    if given.len() == 0 {
        sends(create_request(c, body), StageView::Created { fields: given })
    } else {
        sends(
            get_request(
                c,
                "admin/projects/"@ + pid + "/customFields"@,
                "field(name,fieldType(id))"@,
            ).ask("$top"@, "200"@),
            StageView::NewFields { short, body, fields: given },
        )
    }
}

/// What follows once the types of the fields are known: the issue is created with the
/// fields in it, or without them where one cannot be told, to be set by a command.
pub open spec fn new_typed(
    c: ClientView,
    body: JsonView,
    given: Seq<Seq<char>>,
    defs: Seq<(Seq<char>, Seq<char>)>,
) -> StepView<NextView> {
    match fields::custom_fields(defs, given) {
        Some(cf) => sends(
            create_request(c, with_member(body, "customFields"@, cf)),
            StageView::Created { fields: Seq::empty() },
        ),
        None => sends(create_request(c, body), StageView::Created { fields: given }),
    }
}

/// The request for the fields on some issues of the project `short`.
pub open spec fn sample_request(c: ClientView, short: Seq<char>, what: Seq<char>) -> RequestView {
    issues_request(c, "project: "@ + short, what, "100"@)
}

/// What follows once a project's configuration of its fields could be read or not.
pub open spec fn new_configured(
    c: ClientView,
    short: Seq<char>,
    body: JsonView,
    given: Seq<Seq<char>>,
    config: Option<JsonView>,
) -> StepView<NextView> {
    let defs = fields::field_types(config, None);
    if defs.len() > 0 {
        new_typed(c, body, given, defs)
    } else {
        sends(
            sample_request(c, short, "customFields($type,name)"@),
            StageView::NewSeenFields { body, fields: given },
        )
    }
}

/// The command that sets the fields `given` of the issue `id`.
pub open spec fn set_fields(id: Seq<char>, given: Seq<Seq<char>>) -> JsonView {
    with_member(
        with_text(empty_object(), "query"@, Some(text::joined(given, " "@))),
        "issues"@,
        JsonView::Array(seq![fields::single("idReadable"@, id)]),
    )
}

/// What follows once an issue is created: fields that are not in it are set by a
/// command, and its id is told.
pub open spec fn created_next(c: ClientView, given: Seq<Seq<char>>, v: JsonView) -> StepView<
    NextView,
> {
    match v.member("idReadable"@).text() {
        None => fails("create returned no id"@),
        Some(id) => if given.len() > 0 {
            sends(command_request(c, set_fields(id, given)), StageView::Commanded { id })
        } else {
            ends(line::only(id))
        },
    }
}

/// The change of the summary and the description of the issue `id`.
pub open spec fn edit_next(
    c: ClientView,
    id: Seq<char>,
    summary: Option<Seq<char>>,
    desc: Option<Seq<char>>,
) -> StepView<NextView> {
    if summary is None && desc is None {
        fails("nothing to edit: pass --summary and/or --desc"@)
    } else {
        sends(
            client::request(c, "POST"@, "issues/"@ + id).carry(
                with_text(
                    with_text(empty_object(), "summary"@, summary),
                    "description"@,
                    desc,
                ),
            ).ask("fields"@, "idReadable"@),
            StageView::Report(id),
        )
    }
}

/// The comment `t` on the issue `id`.
pub open spec fn comment_next(c: ClientView, id: Seq<char>, t: Seq<char>) -> StepView<NextView> {
    if t.len() == 0 {
        fails("empty comment"@)
    } else {
        sends(
            client::request(c, "POST"@, "issues/"@ + id + "/comments"@).carry(
                fields::single("text"@, t),
            ),
            StageView::Report("ok"@),
        )
    }
}

/// The path of the links of the issue `id` in the group `group`.
pub open spec fn group_path(id: Seq<char>, group: Seq<char>) -> Seq<char> {
    "issues/"@ + id + "/links/"@ + group + "/issues"@
}

/// What follows once the project `pid` is found whose fields are to be shown.
pub open spec fn fields_request(c: ClientView, pid: Seq<char>) -> RequestView {
    get_request(
        c,
        "admin/projects/"@ + pid + "/customFields"@,
        "canBeEmpty,field(name,fieldType(valueType)),bundle(values(name,archived))"@,
    ).ask("$top"@, "100"@)
}

/// What follows where no field of the project `short` is listed: those are looked at
/// that some of its issues have.
pub open spec fn fields_unlisted(c: ClientView, short: Seq<char>) -> StepView<NextView> {
    sends(
        sample_request(c, short, "customFields(name,value(name,login,text))"@),
        StageView::SeenFields { short },
    )
}

/// What follows the value `v` of a reply at the stage `s`.
pub open spec fn value_known(c: ClientView, s: StageView, v: JsonView) -> StepView<NextView> {
    match s {
        StageView::Rows { limit, full, merged_pr } => if merged_pr {
            rows_next(c, v.items(), Seq::empty(), limit, full)
        } else {
            rows_end(v.items(), v.items().len(), limit, full)
        },
        StageView::Merged { issues, verdicts, limit, full } => rows_next(
            c,
            issues,
            verdicts.push(tells_merge(v)),
            limit,
            full,
        ),
        StageView::Issue { id, comments, pr } => StepView {
            lines: report::issue_shown(c, v, id),
            next: NextView::Send(
                links_request(c, report::readable_id(v, id)),
                StageView::IssueLinks { id: report::readable_id(v, id), comments, pr },
            ),
        },
        StageView::IssueLinks { id, comments, pr } => links_next(
            c,
            id,
            comments,
            pr,
            report::linked_groups(v.items()),
        ),
        StageView::IssueChanges { id, comments } => comments_next(
            c,
            id,
            comments,
            report::change_lines(lookup::pr_changes(lookup::all_added(v.items()))),
        ),
        StageView::Comments => ends(report::comment_lines(v)),
        StageView::Links => {
            let groups = report::linked_groups(v.items());
            ends(
                if groups.len() == 0 {
                    line::only("no links"@)
                } else {
                    report::link_lines(groups)
                },
            )
        },
        StageView::Attachments { out } => attachments_next(v.items(), out),
        StageView::Tags => ends(report::tag_lines(v)),
        StageView::Projects => ends(report::project_lines(v)),
        StageView::FieldsProject { project } => match lookup::project_found(v, project) {
            Ok(p) => sends(fields_request(c, p.0), StageView::Fields { short: p.1 }),
            Err(e) => fails(e),
        },
        StageView::Fields { short } => if v.items().len() == 0 {
            fields_unlisted(c, short)
        } else {
            ends(report::field_lines(short, v.items()))
        },
        StageView::SeenFields { short } => match report::seen_lines(short, v) {
            Ok(l) => StepView { lines: l, next: NextView::Done(false) },
            Err(e) => fails(e),
        },
        StageView::Me => ends(line::only(report::me_line(v))),
        StageView::Users => ends(report::user_lines(v)),
        StageView::NewProject { project, summary, desc, fields } => match lookup::project_found(
            v,
            project,
        ) {
            Ok(p) => if desc == Some("-"@) {
                line::silent(
                    NextView::ReadInput(
                        PromptView::NewDesc { pid: p.0, short: p.1, summary, fields },
                    ),
                )
            } else {
                new_next(c, p.0, p.1, new_body(p.0, summary, desc), fields)
            },
            Err(e) => fails(e),
        },
        StageView::NewFields { short, body, fields } => new_configured(
            c,
            short,
            body,
            fields,
            Some(v),
        ),
        StageView::NewSeenFields { body, fields } => new_typed(
            c,
            body,
            fields,
            fields::field_types(None, Some(v)),
        ),
        StageView::Created { fields } => created_next(c, fields, v),
        StageView::Commanded { id } => ends(line::only(id)),
        StageView::Report(t) => ends(line::only(t)),
        StageView::LinkGroup { id, phrase, target } => match lookup::group_found(
            v,
            phrase,
            lookup::debugged(phrase),
        ) {
            Ok(g) => sends(
                client::request(c, "POST"@, group_path(id, g)).carry(
                    fields::single("idReadable"@, target),
                ).ask("fields"@, "idReadable"@),
                StageView::Report(id + " "@ + phrase + " "@ + target),
            ),
            Err(e) => fails(e),
        },
        StageView::UnlinkGroup { id, phrase, target } => match lookup::group_found(
            v,
            phrase,
            lookup::debugged(phrase),
        ) {
            Ok(g) => sends(
                get_request(c, "issues/"@ + target, "id"@),
                StageView::UnlinkTarget { id, group: g, target },
            ),
            Err(e) => fails(e),
        },
        StageView::UnlinkTarget { id, group, target } => match lookup::issue_found(v, target) {
            Ok(t) => sends(
                client::request(c, "DELETE"@, group_path(id, group) + "/"@ + t),
                StageView::Report(id + " unlinked "@ + target),
            ),
            Err(e) => fails(e),
        },
        StageView::Tag { id, tag } => match lookup::tag_found(v, tag) {
            Ok(t) => sends(
                client::request(c, "POST"@, "issues/"@ + id + "/tags"@).carry(
                    fields::single("id"@, t),
                ),
                StageView::Report("ok"@),
            ),
            Err(e) => fails(e),
        },
        StageView::Untag { id, tag } => match lookup::tag_found(v, tag) {
            Ok(t) => sends(
                client::request(c, "DELETE"@, "issues/"@ + id + "/tags/"@ + t),
                StageView::Report("ok"@),
            ),
            Err(e) => fails(e),
        },
        StageView::Leader { short, name } => match v.member("id"@).text() {
            Some(leader) => sends(
                client::request(c, "POST"@, "admin/projects"@).carry(
                    with_member(
                        with_text(
                            with_text(empty_object(), "name"@, Some(name)),
                            "shortName"@,
                            Some(short),
                        ),
                        "leader"@,
                        fields::single("id"@, leader),
                    ),
                ).ask("fields"@, "id,shortName"@),
                StageView::ProjectCreated { short },
            ),
            None => fails("could not resolve current user"@),
        },
        StageView::ProjectCreated { short } => ends(
            line::only(v.text_or("shortName"@, short) + "  "@ + v.text_or("id"@, "?"@)),
        ),
        StageView::Uploaded { path, rest } => line::saying(
            report::two_members(v, "id"@, "name"@, "?"@),
            upload_next(path, rest),
        ),
    }
}

/// What follows a reply that brought no value but the message `e`: the command fails,
/// unless it can go on without the value. The fields of a project are then those seen
/// on its issues, where `forbidden` tells that the token has not the rights to read
/// their configuration.
pub open spec fn error_known(c: ClientView, s: StageView, e: Seq<char>, forbidden: bool) -> StepView<
    NextView,
> {
    match s {
        StageView::Fields { short } => if forbidden {
            fields_unlisted(c, short)
        } else {
            fails(e)
        },
        StageView::NewFields { short, body, fields } => new_configured(
            c,
            short,
            body,
            fields,
            None,
        ),
        StageView::NewSeenFields { body, fields } => new_typed(
            c,
            body,
            fields,
            fields::field_types(None, None),
        ),
        StageView::Commanded { id } => fails(
            id + " created, but setting fields failed: "@ + e,
        ),
        _ => fails(e),
    }
}

/// What follows a reply that told `told`, and whether it was a refusal for want of
/// rights.
pub open spec fn reply_known(
    c: ClientView,
    s: StageView,
    told: Result<JsonView, Seq<char>>,
    forbidden: bool,
) -> StepView<NextView> {
    match told {
        Ok(v) => value_known(c, s, v),
        Err(e) => error_known(c, s, e, forbidden),
    }
}

/// What follows the text `t` from the standard input, of which white space at the end
/// does not count.
pub open spec fn input_known(c: ClientView, p: PromptView, t: Seq<char>) -> StepView<NextView> {
    let given = text::trimmed_end(t);
    match p {
        PromptView::NewDesc { pid, short, summary, fields } => new_next(
            c,
            pid,
            short,
            new_body(pid, summary, Some(given)),
            fields,
        ),
        PromptView::EditDesc { id, summary } => edit_next(c, id, summary, Some(given)),
        PromptView::CommentText { id } => comment_next(c, id, given),
    }
}

/// The path that files are uploaded to: that of the issue `id`, or of a comment on it.
pub open spec fn attach_path(id: Seq<char>, comment: Option<Seq<char>>) -> Seq<char> {
    match comment {
        Some(cid) => "issues/"@ + id + "/comments/"@ + cid + "/attachments"@,
        None => "issues/"@ + id + "/attachments"@,
    }
}

/// The command `command` for the issues `ids`, with a comment where there is one.
pub open spec fn command_body(
    command: Seq<char>,
    ids: Seq<Seq<char>>,
    comment: Option<Seq<char>>,
) -> JsonView {
    with_text(
        with_member(
            with_text(empty_object(), "query"@, Some(command)),
            "issues"@,
            JsonView::Array(ids.map_values(|id: Seq<char>| lookup::reference(id))),
        ),
        "comment"@,
        comment,
    )
}

/// What is told of each issue in a list.
pub open spec fn row_fields(full: bool) -> Seq<char> {
    if full {
        LIST_FIELDS@ + ",description"@
    } else {
        LIST_FIELDS@
    }
}

/// The first step of a command that reads.
pub open spec fn read_begun(c: ClientView, cmd: ReadCmd) -> StepView<NextView> {
    match cmd {
        ReadCmd::Issue(ReadIssueCmd::Ls { query, limit, full, merged_pr }) => sends(
            issues_request(c, query@, row_fields(full), number::decimal(limit as nat)),
            StageView::Rows { limit: limit as nat, full, merged_pr },
        ),
        ReadCmd::Issue(ReadIssueCmd::Show { id, comments, pr }) => sends(
            get_request(c, "issues/"@ + id@, ISSUE_FIELDS@),
            StageView::Issue { id: id@, comments, pr },
        ),
        ReadCmd::Issue(ReadIssueCmd::Attachments { id, out }) => sends(
            get_request(c, "issues/"@ + id@ + "/attachments"@, "id,name,size,url"@),
            StageView::Attachments {
                out: match out {
                    None => None,
                    Some(dir) => Some(text::or_text(text::opt_text(dir), "."@)),
                },
            },
        ),
        ReadCmd::Issue(ReadIssueCmd::Comments { id }) => sends(
            comments_request(c, id@),
            StageView::Comments,
        ),
        ReadCmd::Issue(ReadIssueCmd::Links { id }) => sends(
            links_request(c, id@),
            StageView::Links,
        ),
        ReadCmd::Issue(ReadIssueCmd::Tags) => sends(tags_request(c), StageView::Tags),
        ReadCmd::Project(ReadProjectCmd::Ls) => sends(
            get_request(c, "admin/projects"@, "shortName,name,archived"@).ask("$top"@, "500"@),
            StageView::Projects,
        ),
        ReadCmd::Project(ReadProjectCmd::Fields { project }) => sends(
            projects_request(c),
            StageView::FieldsProject { project: project@ },
        ),
        ReadCmd::User(ReadUserCmd::Me) => sends(
            get_request(c, "users/me"@, "login,name,email"@),
            StageView::Me,
        ),
        ReadCmd::User(ReadUserCmd::Ls { query }) => sends(
            client::request(c, "GET"@, "users"@).ask("query"@, query@).ask(
                "fields"@,
                "login,name"@,
            ).ask("$top"@, "10"@),
            StageView::Users,
        ),
        ReadCmd::Server(_) | ReadCmd::QueryHelp => line::silent(NextView::Done(false)),
    }
}

/// The first step of a command that writes.
pub open spec fn write_begun(c: ClientView, cmd: WriteCmd) -> StepView<NextView> {
    match cmd {
        WriteCmd::Issue(WriteIssueCmd::New { project, summary, desc, field }) => sends(
            projects_request(c),
            StageView::NewProject {
                project: project@,
                summary: summary@,
                desc: text::opt_text(desc),
                fields: text::texts(field@),
            },
        ),
        WriteCmd::Issue(WriteIssueCmd::Edit { id, summary, desc }) => if text::opt_text(desc)
            == Some("-"@) {
            line::silent(
                NextView::ReadInput(
                    PromptView::EditDesc { id: id@, summary: text::opt_text(summary) },
                ),
            )
        } else {
            edit_next(c, id@, text::opt_text(summary), text::opt_text(desc))
        },
        WriteCmd::Issue(WriteIssueCmd::Attach { id, files, comment }) => line::silent(
            upload_next(attach_path(id@, text::opt_text(comment)), text::texts(files@)),
        ),
        WriteCmd::Issue(WriteIssueCmd::Comment { id, text }) => match text {
            Some(t) => comment_next(c, id@, t@),
            None => line::silent(NextView::ReadInput(PromptView::CommentText { id: id@ })),
        },
        WriteCmd::Issue(WriteIssueCmd::Link { id, phrase, target }) => sends(
            links_request(c, id@),
            StageView::LinkGroup { id: id@, phrase: phrase@, target: target@ },
        ),
        WriteCmd::Issue(WriteIssueCmd::Unlink { id, phrase, target }) => sends(
            links_request(c, id@),
            StageView::UnlinkGroup { id: id@, phrase: phrase@, target: target@ },
        ),
        WriteCmd::Issue(WriteIssueCmd::Cmd { command, ids, comment }) => sends(
            command_request(
                c,
                command_body(command@, text::texts(ids@), text::opt_text(comment)),
            ),
            StageView::Report("ok"@),
        ),
        WriteCmd::Issue(WriteIssueCmd::Tag { id, tag }) => sends(
            tags_request(c),
            StageView::Tag { id: id@, tag: tag@ },
        ),
        WriteCmd::Issue(WriteIssueCmd::Untag { id, tag }) => sends(
            tags_request(c),
            StageView::Untag { id: id@, tag: tag@ },
        ),
        WriteCmd::Project(WriteProjectCmd::Create { short, name }) => sends(
            get_request(c, "users/me"@, "id"@),
            StageView::Leader { short: short@, name: name@ },
        ),
        WriteCmd::Server(_) | WriteCmd::Update { .. } => line::silent(NextView::Done(false)),
    }
}

/// The first step of a command.
pub open spec fn begun(c: ClientView, cmd: Cmd) -> StepView<NextView> {
    match cmd {
        Cmd::Read(r) => read_begun(c, r),
        Cmd::Write(w) => write_begun(c, w),
    }
}

/// Whether a stage belongs to a command that reads.
pub open spec fn reads(s: StageView) -> bool {
    match s {
        StageView::Rows { .. } => true,
        StageView::Merged { .. } => true,
        StageView::Issue { .. } => true,
        StageView::IssueLinks { .. } => true,
        StageView::IssueChanges { .. } => true,
        StageView::Comments => true,
        StageView::Links => true,
        StageView::Attachments { .. } => true,
        StageView::Tags => true,
        StageView::Projects => true,
        StageView::FieldsProject { .. } => true,
        StageView::Fields { .. } => true,
        StageView::SeenFields { .. } => true,
        StageView::Me => true,
        StageView::Users => true,
        _ => false,
    }
}

// ---- laws ----

/// What comes back for what was to be done next.
pub enum Answer {
    Reply(Result<JsonView, Seq<char>>, bool),
    Input(Seq<char>),
    Made,
    Brought(Result<Seq<u8>, Seq<char>>),
    Saved(Seq<char>, nat),
    File(FileRead),
}

/// What follows an answer; nothing changes where it is not the one that is awaited.
pub open spec fn followed(c: ClientView, n: NextView, a: Answer) -> StepView<NextView> {
    match (n, a) {
        (NextView::Send(_, s), Answer::Reply(told, forbidden)) => reply_known(
            c,
            s,
            told,
            forbidden,
        ),
        (NextView::ReadInput(p), Answer::Input(t)) => input_known(c, p, t),
        (NextView::MakeDir(d), Answer::Made) => line::silent(download_next(c, d)),
        (NextView::Fetch(_, name, d), Answer::Brought(told)) => download_done(name, d, told),
        (NextView::Save(_, _, d), Answer::Saved(path, size)) => save_done(c, path, size, d),
        (NextView::ReadFile(u), Answer::File(f)) => file_known(c, u, f),
        _ => line::silent(n),
    }
}

/// What is to be done after the answers `answers`.
pub open spec fn after(c: ClientView, n: NextView, answers: Seq<Answer>) -> NextView
    decreases answers.len(),
{
    if answers.len() == 0 {
        n
    } else {
        followed(c, after(c, n, answers.drop_last()), answers.last()).next
    }
}

/// Whether a request changes nothing on the server: it only asks for something.
pub open spec fn only_asks(r: RequestView) -> bool {
    r.method == "GET"@ && r.body is Empty
}

/// Whether what is to be done changes nothing on the server, and what follows belongs
/// to a command that reads.
pub open spec fn only_reads(n: NextView) -> bool {
    match n {
        NextView::Send(r, s) => only_asks(r) && reads(s),
        NextView::Fetch(r, _, _) => only_asks(r),
        NextView::ReadInput(_) => false,
        NextView::ReadFile(_) => false,
        _ => true,
    }
}

/// What follows a step of a command that reads only reads too.
proof fn lemma_reading_goes_on(c: ClientView, n: NextView, a: Answer)
    requires
        only_reads(n),
    ensures
        only_reads(followed(c, n, a).next),
{
}

/// A command of the tier that reads never sends anything but requests to be told
/// something, whatever comes back.
pub proof fn law_read_tier_never_writes(c: ClientView, cmd: ReadCmd, answers: Seq<Answer>)
    ensures
        only_reads(after(c, read_begun(c, cmd).next, answers)),
    decreases answers.len(),
{
    if answers.len() > 0 {
        let before = answers.drop_last();
        law_read_tier_never_writes(c, cmd, before);
        lemma_reading_goes_on(
            c,
            after(c, read_begun(c, cmd).next, before),
            answers.last(),
        );
    }
}

/// The fields given for an issue are in the request that creates it, or left to be set
/// by a command, all of them.
pub proof fn law_given_fields_are_never_lost(
    c: ClientView,
    body: JsonView,
    given: Seq<Seq<char>>,
    defs: Seq<(Seq<char>, Seq<char>)>,
)
    ensures
        match new_typed(c, body, given, defs).next {
            NextView::Send(r, StageView::Created { fields }) => {
                ||| fields == given && r == create_request(c, body)
                ||| fields.len() == 0 && (fields::custom_fields(defs, given) matches Some(cf)
                    && r == create_request(c, with_member(body, "customFields"@, cf)))
            },
            _ => false,
        },
{
}

/// Fields that were left are set by one command, in the order given, on the issue that
/// was created.
pub proof fn law_fields_left_are_set(
    c: ClientView,
    given: Seq<Seq<char>>,
    v: JsonView,
    id: Seq<char>,
)
    requires
        given.len() > 0,
        v.member("idReadable"@).text() == Some(id),
    ensures
        created_next(c, given, v).next == NextView::Send(
            command_request(c, set_fields(id, given)),
            StageView::Commanded { id },
        ),
        set_fields(id, given).member("query"@).text() == Some(text::joined(given, " "@)),
{
    reveal_strlit("query");
    reveal_strlit("issues");
    assert("query"@[0] == 'q' && "issues"@[0] == 'i');
}

/// Whether the activities that a value lists tell of a merged pull request.
pub open spec fn tells_merge(v: JsonView) -> bool {
    lookup::merged(lookup::pr_changes(lookup::all_added(v.items())))
}

/// The replies about pull requests, as answers.
pub open spec fn as_answers(replies: Seq<JsonView>) -> Seq<Answer> {
    replies.map_values(|v: JsonView| Answer::Reply(Ok(v), false))
}

/// The verdicts that the replies about pull requests lead to.
pub open spec fn as_verdicts(replies: Seq<JsonView>) -> Seq<bool> {
    replies.map_values(|v: JsonView| tells_merge(v))
}

/// The first replies about pull requests leave the others to be asked for.
proof fn lemma_rows_go_on(
    c: ClientView,
    issues: Seq<JsonView>,
    replies: Seq<JsonView>,
    limit: nat,
    full: bool,
)
    requires
        replies.len() < issues.len(),
    ensures
        after(c, rows_next(c, issues, Seq::empty(), limit, full).next, as_answers(replies))
            == rows_next(c, issues, as_verdicts(replies), limit, full).next,
    decreases replies.len(),
{
    if replies.len() == 0 {
        assert(as_verdicts(replies) =~= Seq::empty());
        assert(as_answers(replies).len() == 0);
    } else {
        let before = replies.drop_last();
        lemma_rows_go_on(c, issues, before, limit, full);
        assert(as_answers(replies).drop_last() =~= as_answers(before));
        assert(as_answers(replies).last() == Answer::Reply(Ok(replies.last()), false));
        assert(as_verdicts(replies) =~= as_verdicts(before).push(tells_merge(replies.last())));
    }
}

/// Once the pull requests of every issue found are told, those issues are listed that
/// have a merged one, and no others.
pub proof fn law_merged_issues_are_listed(
    c: ClientView,
    issues: Seq<JsonView>,
    replies: Seq<JsonView>,
    limit: nat,
    full: bool,
)
    requires
        issues.len() > 0,
        replies.len() == issues.len(),
    ensures
        followed(
            c,
            after(
                c,
                rows_next(c, issues, Seq::empty(), limit, full).next,
                as_answers(replies.drop_last()),
            ),
            Answer::Reply(Ok(replies.last()), false),
        ) == rows_end(report::kept(issues, as_verdicts(replies)), issues.len(), limit, full),
{
    let before = replies.drop_last();
    lemma_rows_go_on(c, issues, before, limit, full);
    assert(as_verdicts(replies) =~= as_verdicts(before).push(tells_merge(replies.last())));
}

/// Whether a stage belongs to the command that creates an issue.
pub open spec fn creates(s: StageView) -> bool {
    match s {
        StageView::NewProject { .. } => true,
        StageView::NewFields { .. } => true,
        StageView::NewSeenFields { .. } => true,
        StageView::Created { .. } => true,
        StageView::Commanded { .. } => true,
        _ => false,
    }
}

/// The command that creates an issue prints its id and nothing else.
pub proof fn law_creating_prints_the_id_alone(
    c: ClientView,
    s: StageView,
    told: Result<JsonView, Seq<char>>,
    forbidden: bool,
)
    requires
        creates(s),
    ensures
        ({
            let step = reply_known(c, s, told, forbidden);
            match step.next {
                NextView::Done(_) => told is Ok && match s {
                    StageView::Created { .. } => (told->Ok_0).member("idReadable"@).text()
                        matches Some(id) && step.lines == line::only(id),
                    StageView::Commanded { id } => step.lines == line::only(id),
                    _ => false,
                },
                NextView::Send(_, t) => step.lines.len() == 0 && creates(t),
                NextView::ReadInput(p) => step.lines.len() == 0 && p is NewDesc,
                NextView::Fail(_) => step.lines.len() == 0,
                _ => false,
            }
        }),
{
}

/// What the server says of a request that it refuses reaches the user, but for the
/// requests that a command can do without: the two about the types of fields, and the
/// one for the fields of a project where the token has not the rights for it.
pub proof fn law_refusals_are_told(c: ClientView, s: StageView, e: Seq<char>, forbidden: bool)
    requires
        !(s is NewFields),
        !(s is NewSeenFields),
        !(s is Fields && forbidden),
    ensures
        reply_known(c, s, Err(e), forbidden).next matches NextView::Fail(m) && e.is_suffix_of(m),
{
    if s is Commanded {
        let m = s->Commanded_id + " created, but setting fields failed: "@ + e;
        assert(m.skip(m.len() - e.len()) =~= e);
    } else {
        assert(e.skip(0) =~= e);
    }
}

/// Without the rights to read how a project's fields are configured, those are asked
/// for that some of its issues have.
pub proof fn law_fields_are_seen_without_rights(c: ClientView, short: Seq<char>, e: Seq<char>)
    ensures
        reply_known(c, StageView::Fields { short }, Err(e), true) == reply_known(
            c,
            StageView::Fields { short },
            Ok(JsonView::Array(Seq::empty())),
            false,
        ),
        reply_known(c, StageView::Fields { short }, Err(e), true).next matches NextView::Send(_, t)
            && t == (StageView::SeenFields { short }),
{
}

/// An object stays one that can be written when a member that can be written is added.
pub proof fn law_members_can_be_written(v: JsonView, key: Seq<char>, m: JsonView)
    requires
        wire::writable(v),
        wire::writable(m),
    ensures
        wire::writable(with_member(v, key, m)),
{
    if v is Object {
        let w = with_member(v, key, m);
        assert forall|k: Seq<char>| #[trigger] w->Object_0.contains_key(k) implies wire::writable(
            w->Object_0[k],
        ) by {
            if k != key {
                wire::lemma_writable_member(v, k);
            }
        }
        wire::lemma_writable_object(w);
    }
}

/// Whether the issue to create that a stage holds can be written as JSON text.
pub open spec fn holds_writable(s: StageView) -> bool {
    match s {
        StageView::NewFields { body, .. } => wire::writable(body),
        StageView::NewSeenFields { body, .. } => wire::writable(body),
        _ => true,
    }
}

/// Whether what is sent next can be written as JSON text, and so can what is held to be
/// sent later.
pub open spec fn sends_writable(n: NextView) -> bool {
    match n {
        NextView::Send(r, s) => (r.body matches BodyView::Value(v) ==> wire::writable(v))
            && holds_writable(s),
        _ => true,
    }
}

/// An object stays one that can be written when a text is added.
proof fn lemma_text_added(v: JsonView, key: Seq<char>, t: Option<Seq<char>>)
    requires
        wire::writable(v),
    ensures
        wire::writable(with_text(v, key, t)),
{
    if let Some(x) = t {
        law_members_can_be_written(v, key, JsonView::Text(x));
    }
}

/// The object without members can be written.
proof fn lemma_empty_object()
    ensures
        wire::writable(empty_object()),
{
    wire::lemma_writable_object(empty_object());
}

/// The issue to create can be written.
proof fn lemma_new_body(pid: Seq<char>, summary: Seq<char>, desc: Option<Seq<char>>)
    ensures
        wire::writable(new_body(pid, summary, desc)),
{
    lemma_empty_object();
    fields::lemma_single_writable("id"@, pid);
    let project = with_member(empty_object(), "project"@, fields::single("id"@, pid));
    law_members_can_be_written(empty_object(), "project"@, fields::single("id"@, pid));
    lemma_text_added(project, "summary"@, Some(summary));
    lemma_text_added(with_text(project, "summary"@, Some(summary)), "description"@, desc);
}

/// The command that sets fields can be written.
proof fn lemma_set_fields(id: Seq<char>, given: Seq<Seq<char>>)
    ensures
        wire::writable(set_fields(id, given)),
{
    lemma_empty_object();
    fields::lemma_single_writable("idReadable"@, id);
    let query = Some(text::joined(given, " "@));
    let issues = JsonView::Array(seq![fields::single("idReadable"@, id)]);
    lemma_text_added(empty_object(), "query"@, query);
    wire::lemma_writable_array(issues);
    law_members_can_be_written(with_text(empty_object(), "query"@, query), "issues"@, issues);
}

/// A command for issues can be written.
proof fn lemma_command_body(
    command: Seq<char>,
    ids: Seq<Seq<char>>,
    comment: Option<Seq<char>>,
)
    ensures
        wire::writable(command_body(command, ids, comment)),
{
    lemma_empty_object();
    let issues = JsonView::Array(ids.map_values(|id: Seq<char>| lookup::reference(id)));
    assert forall|i: int| 0 <= i < issues->Array_0.len() implies wire::writable(
        #[trigger] issues->Array_0[i],
    ) by {
        fields::lemma_single_writable("id"@, ids[i]);
        fields::lemma_single_writable("idReadable"@, ids[i]);
    }
    wire::lemma_writable_array(issues);
    let query = with_text(empty_object(), "query"@, Some(command));
    lemma_text_added(empty_object(), "query"@, Some(command));
    law_members_can_be_written(query, "issues"@, issues);
    lemma_text_added(with_member(query, "issues"@, issues), "comment"@, comment);
}

/// A change of the summary and the description can be written.
proof fn lemma_edit(
    c: ClientView,
    id: Seq<char>,
    summary: Option<Seq<char>>,
    desc: Option<Seq<char>>,
)
    ensures
        sends_writable(edit_next(c, id, summary, desc).next),
{
    lemma_empty_object();
    lemma_text_added(empty_object(), "summary"@, summary);
    lemma_text_added(with_text(empty_object(), "summary"@, summary), "description"@, desc);
}

/// What follows a value can be written, but for the stages at which the fields of an
/// issue are made out.
proof fn lemma_value_sends(c: ClientView, s: StageView, v: JsonView)
    requires
        !(s is NewFields),
        !(s is NewSeenFields),
    ensures
        sends_writable(value_known(c, s, v).next),
{
    match s {
        StageView::NewProject { project, summary, desc, .. } => {
            if let Ok(p) = lookup::project_found(v, project) {
                lemma_new_body(p.0, summary, desc);
            }
        },
        StageView::Created { fields } => {
            if let Some(id) = v.member("idReadable"@).text() {
                lemma_set_fields(id, fields);
            }
        },
        StageView::LinkGroup { target, .. } => {
            fields::lemma_single_writable("idReadable"@, target);
        },
        StageView::Tag { tag, .. } => {
            if let Ok(t) = lookup::tag_found(v, tag) {
                fields::lemma_single_writable("id"@, t);
            }
        },
        StageView::Leader { short, name } => {
            if let Some(leader) = v.member("id"@).text() {
                lemma_empty_object();
                lemma_text_added(empty_object(), "name"@, Some(name));
                let named = with_text(empty_object(), "name"@, Some(name));
                lemma_text_added(named, "shortName"@, Some(short));
                fields::lemma_single_writable("id"@, leader);
                law_members_can_be_written(
                    with_text(named, "shortName"@, Some(short)),
                    "leader"@,
                    fields::single("id"@, leader),
                );
            }
        },
        _ => {},
    }
}

/// What follows a text from the standard input can be written.
pub proof fn law_input_can_be_sent(c: ClientView, p: PromptView, t: Seq<char>)
    ensures
        sends_writable(input_known(c, p, t).next),
{
    let given = text::trimmed_end(t);
    match p {
        PromptView::NewDesc { pid, summary, .. } => {
            lemma_new_body(pid, summary, Some(given));
        },
        PromptView::EditDesc { id, summary } => {
            lemma_edit(c, id, summary, Some(given));
        },
        PromptView::CommentText { id } => {
            fields::lemma_single_writable("text"@, given);
        },
    }
}

/// What the first step of a command sends can be written.
pub proof fn law_first_step_can_be_sent(c: ClientView, cmd: Cmd)
    ensures
        sends_writable(begun(c, cmd).next),
{
    match cmd {
        Cmd::Write(WriteCmd::Issue(WriteIssueCmd::Edit { id, summary, desc })) => {
            lemma_edit(c, id@, text::opt_text(summary), text::opt_text(desc));
        },
        Cmd::Write(WriteCmd::Issue(WriteIssueCmd::Comment { text, .. })) => {
            if let Some(t) = text {
                fields::lemma_single_writable("text"@, t@);
            }
        },
        Cmd::Write(WriteCmd::Issue(WriteIssueCmd::Cmd { command, ids, comment })) => {
            lemma_command_body(command@, text::texts(ids@), text::opt_text(comment));
        },
        _ => {},
    }
}

// ---- operations: requests ----

/// The request for the issues that `query` finds, `top` at most.
fn ask_issues(c: &Client, query: &str, what: &str, top: &str) -> (r: Request)
    ensures
        r@ == issues_request(c@, query@, what@, top@),
{
    c.get("issues").ask("query", query).ask("fields", what).ask("$top", top)
}

/// The request for `what` of `path`.
fn ask_for(c: &Client, path: &str, what: &str) -> (r: Request)
    ensures
        r@ == get_request(c@, path@, what@),
{
    c.get(path).ask("fields", what)
}

/// The request for the activities of the issue `id` that are about pull requests.
fn ask_activities(c: &Client, id: &str) -> (r: Request)
    ensures
        r@ == activities_request(c@, id@),
{
    c.get(text::cat3("issues/", id, "/activities").as_str()).ask(
        "categories",
        "PullRequestChangeCategory",
    ).ask("fields", PR_ACTIVITY_FIELDS)
}

/// The request for the comments on the issue `id`.
fn ask_comments(c: &Client, id: &str) -> (r: Request)
    ensures
        r@ == comments_request(c@, id@),
{
    ask_for(c, text::cat3("issues/", id, "/comments").as_str(), COMMENT_FIELDS)
}

/// The request for the links of the issue `id`.
fn ask_links(c: &Client, id: &str) -> (r: Request)
    ensures
        r@ == links_request(c@, id@),
{
    ask_for(c, text::cat3("issues/", id, "/links").as_str(), LINK_FIELDS)
}

/// The request for the tags.
fn ask_tags(c: &Client) -> (r: Request)
    ensures
        r@ == tags_request(c@),
{
    ask_for(c, "tags", "id,name").ask("$top", "500")
}

/// The request for the projects by which one is found.
fn ask_projects(c: &Client) -> (r: Request)
    ensures
        r@ == projects_request(c@),
{
    ask_for(c, "admin/projects", "id,shortName,name").ask("$top", "500")
}

/// The request for the fields on some issues of the project `short`.
fn ask_sample(c: &Client, short: &str, what: &str) -> (r: Request)
    ensures
        r@ == sample_request(c@, short@, what@),
{
    ask_issues(c, text::cat("project: ", short).as_str(), what, "100")
}

/// The request that creates an issue.
fn ask_create(c: &Client, body: Json) -> (r: Request)
    ensures
        r@ == create_request(c@, body@),
{
    c.post("issues", body).ask("fields", "idReadable")
}

// ---- operations: steps ----

/// The step that sends a request.
fn send(r: Request, s: Stage) -> (step: Step<Next>)
    ensures
        step@ == sends(r@, s@),
{
    line::quiet(Next::Send(r, s))
}

/// The step that fails.
fn fail(e: Failure) -> (step: Step<Next>)
    ensures
        step@ == fails(e@),
{
    line::quiet(Next::Fail(e))
}

/// The step that prints the last lines.
fn end(lines: Vec<Line>) -> (step: Step<Next>)
    ensures
        step@ == ends(line::views(lines@)),
{
    Step { lines, next: Next::Done(true) }
}

/// The end of a list of issues.
fn end_rows(rows: &[Json], fetched: usize, limit: usize, full: bool) -> (step: Step<Next>)
    ensures
        step@ == rows_end(json::array_view(rows@), fetched as nat, limit as nat, full),
{
    Step { lines: report::show_rows(rows, fetched, limit, full), next: Next::Done(rows.len() > 0) }
}

/// The next of the issues whose pull requests are to be looked at.
fn next_row(c: &Client, issues: Vec<Json>, verdicts: Vec<bool>, limit: usize, full: bool) -> (step:
    Step<Next>)
    ensures
        step@ == rows_next(c@, json::array_view(issues@), verdicts@, limit as nat, full),
{
    if verdicts.len() < issues.len() {
        let q = ask_activities(c, issues[verdicts.len()].text_or("idReadable", ""));
        send(q, Stage::Merged { issues, verdicts, limit, full })
    } else {
        let rows = report::kept_rows(issues.as_slice(), &verdicts);
        end_rows(rows.as_slice(), issues.len(), limit, full)
    }
}

/// What follows `lines` about the issue `id`.
fn then_comments(c: &Client, id: &str, comments: bool, lines: Vec<Line>) -> (step: Step<Next>)
    ensures
        step@ == comments_next(c@, id@, comments, line::views(lines@)),
{
    if comments {
        Step {
            lines: line::both(lines, line::just("\n-- comments --".to_owned())),
            next: Next::Send(ask_comments(c, id), Stage::Comments),
        }
    } else {
        end(lines)
    }
}

/// What follows the links of the issue `id`.
fn then_changes(c: &Client, id: String, comments: bool, pr: bool, groups: &[Json]) -> (step: Step<
    Next,
>)
    ensures
        step@ == links_next(c@, id@, comments, pr, json::array_view(groups@)),
{
    let lines = if groups.len() > 0 {
        line::both(
            line::just("\n-- links --".to_owned()),
            report::show_link_groups(groups),
        )
    } else {
        line::nothing()
    };
    if pr {
        let q = ask_activities(c, id.as_str());
        Step { lines, next: Next::Send(q, Stage::IssueChanges { id, comments }) }
    } else {
        then_comments(c, id.as_str(), comments, lines)
    }
}

/// What to do for the attachments `list`.
fn then_attachments(list: Vec<Json>, out: Option<String>) -> (step: Step<Next>)
    ensures
        step@ == attachments_next(json::array_view(list@), text::opt_text(out)),
{
    if list.len() == 0 {
        line::say("no attachments".to_owned(), Next::Done(false))
    } else {
        match out {
            None => end(report::show_attachments(list.as_slice())),
            Some(dir) => line::quiet(Next::MakeDir(Downloads { dir, list })),
        }
    }
}

/// What to do for the next attachment.
fn next_of(c: &Client, d: Downloads) -> (n: Next)
    ensures
        n@ == download_next(c@, d@),
{
    if d.list.len() == 0 {
        return Next::Done(true);
    }
    let mut list = d.list;
    let a = list.remove(0);
    assert(json::array_view(list@) =~= d@.list.drop_first());
    let name = a.text_or("name", "attachment");
    match a.member("url").as_str() {
        Some(url) => Next::Fetch(
            c.get_bytes(url),
            name.to_owned(),
            Downloads { dir: d.dir, list },
        ),
        None => Next::Fail(Failure::about("attachment '", name, "' has no url")),
    }
}

/// What to do once the directory for the attachments is there.
pub fn next_download(c: &Client, d: Downloads) -> (step: Step<Next>)
    ensures
        step@ == line::silent(download_next(c@, d@)),
{
    line::quiet(next_of(c, d))
}

/// What to do once the attachment `name` was fetched.
pub fn on_download(name: String, d: Downloads, download: Download) -> (step: Step<Next>)
    ensures
        step@ == download_done(name@, d@, client::download_value(download)),
{
    match client::read_bytes(download) {
        Ok(b) => line::quiet(Next::Save(name, b, d)),
        Err(e) => fail(e),
    }
}

/// What to do once `size` bytes were written to `path`.
pub fn on_saved(c: &Client, path: &str, size: usize, d: Downloads) -> (step: Step<Next>)
    ensures
        step@ == save_done(c@, path@, size as nat, d@),
{
    line::say(
        text::cat3(path, "  ", number::decimal_text(size as u128).as_str()),
        next_of(c, d),
    )
}

/// What to do for the next of the files to upload to `path`.
fn next_upload(path: String, files: Vec<String>) -> (n: Next)
    ensures
        n@ == upload_next(path@, text::texts(files@)),
{
    if files.len() == 0 {
        return Next::Done(true);
    }
    let mut rest = files;
    let file = rest.remove(0);
    assert(text::texts(rest@) =~= text::texts(files@).drop_first());
    Next::ReadFile(Uploads { path, file, rest })
}

/// What to do once a file to upload was read.
pub fn on_file(c: &Client, u: Uploads, f: FileRead) -> (step: Step<Next>)
    ensures
        step@ == file_known(c@, u@, f),
{
    match f {
        FileRead::Unnamed => fail(
            Failure { message: text::cat("bad file name: ", u.file.as_str()) },
        ),
        FileRead::Unreadable(e) => {
            let mut m = text::cat3("cannot read ", u.file.as_str(), ": ");
            m.append(e.as_str());
            fail(Failure { message: m })
        },
        FileRead::Read(name, data) => {
            let q = c.post_file(u.path.as_str(), name.as_str(), &data).ask("fields", "id,name");
            send(q, Stage::Uploaded { path: u.path, rest: u.rest })
        },
    }
}

/// An object with a text more, where there is one.
fn add_text(v: Json, key: &str, t: Option<String>) -> (r: Json)
    ensures
        r@ == with_text(v@, key@, text::opt_text(t)),
{
    match t {
        Some(x) => v.with(key, Json::Text(x)),
        None => v,
    }
}

/// The issue to create in the project `pid`.
fn body_of_new(pid: &str, summary: String, desc: Option<String>) -> (r: Json)
    ensures
        r@ == new_body(pid@, summary@, text::opt_text(desc)),
{
    let v = Json::object().with("project", fields::single_member("id", pid)).with("summary", Json::Text(summary));
    add_text(v, "description", desc)
}

/// What follows once it is known what issue to create in the project `pid`.
fn then_new(c: &Client, pid: &str, short: String, body: Json, given: Vec<String>) -> (step: Step<
    Next,
>)
    ensures
        step@ == new_next(c@, pid@, short@, body@, text::texts(given@)),
{
    assert(text::texts(given@).len() == given@.len());
    if given.len() == 0 {
        send(ask_create(c, body), Stage::Created { fields: given })
    } else {
        let q = ask_for(
            c,
            text::cat3("admin/projects/", pid, "/customFields").as_str(),
            "field(name,fieldType(id))",
        ).ask("$top", "200");
        send(q, Stage::NewFields { short, body, fields: given })
    }
}

/// What follows once the types of the fields are known.
fn then_create(c: &Client, body: Json, given: Vec<String>, defs: &Vec<(String, String)>) -> (step:
    Step<Next>)
    ensures
        step@ == new_typed(c@, body@, text::texts(given@), text::pairs(defs@)),
        wire::writable(body@) ==> sends_writable(step.next@),
{
    match fields::resolve_custom_fields(defs.as_slice(), given.as_slice()) {
        Some(cf) => {
            proof {
                if wire::writable(body@) {
                    law_members_can_be_written(body@, "customFields"@, cf@);
                }
            }
            let none: Vec<String> = Vec::new();
            assert(text::texts(none@) =~= Seq::empty());
            send(
                ask_create(c, body.with("customFields", cf)),
                Stage::Created { fields: none },
            )
        },
        None => send(ask_create(c, body), Stage::Created { fields: given }),
    }
}

/// What follows once a project's configuration of its fields could be read or not.
fn then_typed(c: &Client, short: &str, body: Json, given: Vec<String>, config: Option<&Json>) -> (step:
    Step<Next>)
    ensures
        step@ == new_configured(c@, short@, body@, text::texts(given@), json::opt_ref(config)),
        wire::writable(body@) ==> sends_writable(step.next@),
{
    let defs = fields::project_field_types(config, None);
    assert(text::pairs(defs@).len() == defs@.len());
    if defs.len() > 0 {
        then_create(c, body, given, &defs)
    } else {
        send(
            ask_sample(c, short, "customFields($type,name)"),
            Stage::NewSeenFields { body, fields: given },
        )
    }
}

/// What follows once an issue is created.
fn then_created(c: &Client, given: Vec<String>, v: &Json) -> (step: Step<Next>)
    ensures
        step@ == created_next(c@, text::texts(given@), v@),
{
    assert(text::texts(given@).len() == given@.len());
    match v.member("idReadable").as_str() {
        None => fail(Failure::new("create returned no id")),
        Some(id) => if given.len() > 0 {
            let mut issues: Vec<Json> = Vec::new();
            issues.push(fields::single_member("idReadable", id));
            assert(json::array_view(issues@) =~= seq![fields::single("idReadable"@, id@)]);
            let body = Json::object().with(
                "query",
                Json::Text(text::join(&given, " ")),
            ).with("issues", Json::Array(issues));
            send(c.post("commands", body), Stage::Commanded { id: id.to_owned() })
        } else {
            end(line::just(id.to_owned()))
        },
    }
}

/// The change of the summary and the description of the issue `id`.
fn then_edit(c: &Client, id: String, summary: Option<String>, desc: Option<String>) -> (step: Step<
    Next,
>)
    ensures
        step@ == edit_next(c@, id@, text::opt_text(summary), text::opt_text(desc)),
{
    if summary.is_none() && desc.is_none() {
        return fail(Failure::new("nothing to edit: pass --summary and/or --desc"));
    }
    let body = add_text(add_text(Json::object(), "summary", summary), "description", desc);
    let q = c.post(text::cat("issues/", id.as_str()).as_str(), body).ask("fields", "idReadable");
    send(q, Stage::Report(id))
}

/// The comment `t` on the issue `id`.
fn then_comment(c: &Client, id: &str, t: &str) -> (step: Step<Next>)
    ensures
        step@ == comment_next(c@, id@, t@),
{
    if t.is_empty() {
        return fail(Failure::new("empty comment"));
    }
    let q = c.post(text::cat3("issues/", id, "/comments").as_str(), fields::single_member("text", t));
    send(q, Stage::Report("ok".to_owned()))
}

/// The path of the links of the issue `id` in the group `group`.
fn path_of_group(id: &str, group: &str) -> (r: String)
    ensures
        r@ == group_path(id@, group@),
{
    let mut p = text::cat3("issues/", id, "/links/");
    p.append(group);
    p.append("/issues");
    p
}

/// The words `a`, `b` and `c`, with a space between them.
fn words(a: &str, b: &str, c: &str) -> (r: String)
    ensures
        r@ == a@ + " "@ + b@ + " "@ + c@,
{
    let mut t = text::cat3(a, " ", b);
    t.append(" ");
    t.append(c);
    t
}

/// What follows where no field of the project `short` is listed.
fn then_seen(c: &Client, short: String) -> (step: Step<Next>)
    ensures
        step@ == fields_unlisted(c@, short@),
{
    let q = ask_sample(c, short.as_str(), "customFields(name,value(name,login,text))");
    send(q, Stage::SeenFields { short })
}

/// What to do once a text came from the standard input.
pub fn on_input(c: &Client, p: Prompt, t: &str) -> (step: Step<Next>)
    ensures
        step@ == input_known(c@, p@, t@),
        sends_writable(step.next@),
{
    proof {
        law_input_can_be_sent(c@, p@, t@);
    }
    let given = text::trim_end(t);
    match p {
        Prompt::NewDesc { pid, short, summary, fields } => {
            let body = body_of_new(pid.as_str(), summary, Some(given));
            then_new(c, pid.as_str(), short, body, fields)
        },
        Prompt::EditDesc { id, summary } => then_edit(c, id, summary, Some(given)),
        Prompt::CommentText { id } => then_comment(c, id.as_str(), given.as_str()),
    }
}

/// What to do once a reply brought the value `v`.
pub fn on_value(c: &Client, s: Stage, v: Json) -> (step: Step<Next>)
    ensures
        step@ == value_known(c@, s@, v@),
        holds_writable(s@) ==> sends_writable(step.next@),
{
    proof {
        if !(s@ is NewFields) && !(s@ is NewSeenFields) {
            lemma_value_sends(c@, s@, v@);
        }
    }
    match s {
        Stage::Rows { limit, full, merged_pr } => {
            let issues = v.into_items();
            assert(json::array_view(issues@).len() == issues@.len());
            if merged_pr {
                let verdicts: Vec<bool> = Vec::new();
                assert(verdicts@ =~= Seq::empty());
                next_row(c, issues, verdicts, limit, full)
            } else {
                end_rows(issues.as_slice(), issues.len(), limit, full)
            }
        },
        Stage::Merged { issues, verdicts, limit, full } => {
            let mut verdicts = verdicts;
            let changes = lookup::pr_changes_from_activities(&v);
            verdicts.push(lookup::has_merged_pr(changes.as_slice()));
            next_row(c, issues, verdicts, limit, full)
        },
        Stage::Issue { id, comments, pr } => {
            let lines = report::show_issue(c, &v, id.as_str());
            let readable = v.text_or("idReadable", id.as_str());
            let q = ask_links(c, readable);
            Step {
                lines,
                next: Next::Send(
                    q,
                    Stage::IssueLinks { id: readable.to_owned(), comments, pr },
                ),
            }
        },
        Stage::IssueLinks { id, comments, pr } => {
            let groups = report::groups_with_issues(&v);
            then_changes(c, id, comments, pr, groups.as_slice())
        },
        Stage::IssueChanges { id, comments } => {
            let changes = lookup::pr_changes_from_activities(&v);
            then_comments(c, id.as_str(), comments, report::show_changes(changes.as_slice()))
        },
        Stage::Comments => end(report::show_comments(&v)),
        Stage::Links => {
            let groups = report::groups_with_issues(&v);
            assert(json::array_view(groups@).len() == groups@.len());
            if groups.len() == 0 {
                end(line::just("no links".to_owned()))
            } else {
                end(report::show_link_groups(groups.as_slice()))
            }
        },
        Stage::Attachments { out } => then_attachments(v.into_items(), out),
        Stage::Tags => end(report::show_tags(&v)),
        Stage::Projects => end(report::show_projects(&v)),
        Stage::FieldsProject { project } => match lookup::resolve_project(&v, project.as_str()) {
            Ok((pid, short)) => {
                let q = ask_for(
                    c,
                    text::cat3("admin/projects/", pid.as_str(), "/customFields").as_str(),
                    "canBeEmpty,field(name,fieldType(valueType)),bundle(values(name,archived))",
                ).ask("$top", "100");
                send(q, Stage::Fields { short })
            },
            Err(e) => fail(e),
        },
        Stage::Fields { short } => {
            let list = v.items();
            if list.len() == 0 {
                then_seen(c, short)
            } else {
                end(report::show_fields(short.as_str(), list))
            }
        },
        Stage::SeenFields { short } => match report::show_seen_fields(short.as_str(), &v) {
            Ok(lines) => Step { lines, next: Next::Done(false) },
            Err(e) => fail(e),
        },
        Stage::Me => end(report::show_me(&v)),
        Stage::Users => end(report::show_users(&v)),
        Stage::NewProject { project, summary, desc, fields } => match lookup::resolve_project(
            &v,
            project.as_str(),
        ) {
            Ok((pid, short)) => {
                let asked = match &desc {
                    Some(d) => text::same(d.as_str(), "-"),
                    None => false,
                };
                if asked {
                    line::quiet(Next::ReadInput(Prompt::NewDesc { pid, short, summary, fields }))
                } else {
                    let body = body_of_new(pid.as_str(), summary, desc);
                    then_new(c, pid.as_str(), short, body, fields)
                }
            },
            Err(e) => fail(e),
        },
        Stage::NewFields { short, body, fields } => then_typed(
            c,
            short.as_str(),
            body,
            fields,
            Some(&v),
        ),
        Stage::NewSeenFields { body, fields } => {
            let defs = fields::project_field_types(None, Some(&v));
            then_create(c, body, fields, &defs)
        },
        Stage::Created { fields } => then_created(c, fields, &v),
        Stage::Commanded { id } => end(line::just(id)),
        Stage::LinkGroup { id, phrase, target } => match lookup::resolve_link_group(
            &v,
            phrase.as_str(),
        ) {
            Ok(g) => {
                let q = c.post(
                    path_of_group(id.as_str(), g.as_str()).as_str(),
                    fields::single_member("idReadable", target.as_str()),
                ).ask("fields", "idReadable");
                send(q, Stage::Report(words(id.as_str(), phrase.as_str(), target.as_str())))
            },
            Err(e) => fail(e),
        },
        Stage::UnlinkGroup { id, phrase, target } => match lookup::resolve_link_group(
            &v,
            phrase.as_str(),
        ) {
            Ok(group) => {
                let q = ask_for(c, text::cat("issues/", target.as_str()).as_str(), "id");
                send(q, Stage::UnlinkTarget { id, group, target })
            },
            Err(e) => fail(e),
        },
        Stage::UnlinkTarget { id, group, target } => match lookup::internal_id(
            &v,
            target.as_str(),
        ) {
            Ok(t) => {
                let path = path_of_group(id.as_str(), group.as_str());
                let q = c.delete(text::cat3(path.as_str(), "/", t.as_str()).as_str());
                send(q, Stage::Report(text::cat3(id.as_str(), " unlinked ", target.as_str())))
            },
            Err(e) => fail(e),
        },
        Stage::Tag { id, tag } => match lookup::resolve_tag(&v, tag.as_str()) {
            Ok(t) => {
                let q = c.post(
                    text::cat3("issues/", id.as_str(), "/tags").as_str(),
                    fields::single_member("id", t.as_str()),
                );
                send(q, Stage::Report("ok".to_owned()))
            },
            Err(e) => fail(e),
        },
        Stage::Untag { id, tag } => match lookup::resolve_tag(&v, tag.as_str()) {
            Ok(t) => {
                let mut path = text::cat3("issues/", id.as_str(), "/tags/");
                path.append(t.as_str());
                send(c.delete(path.as_str()), Stage::Report("ok".to_owned()))
            },
            Err(e) => fail(e),
        },
        Stage::Leader { short, name } => match v.member("id").as_str() {
            Some(leader) => {
                let body = Json::object().with("name", Json::Text(name)).with(
                    "shortName",
                    Json::text(short.as_str()),
                ).with("leader", fields::single_member("id", leader));
                let q = c.post("admin/projects", body).ask("fields", "id,shortName");
                send(q, Stage::ProjectCreated { short })
            },
            None => fail(Failure::new("could not resolve current user")),
        },
        Stage::ProjectCreated { short } => end(
            line::just(
                text::cat3(
                    v.text_or("shortName", short.as_str()),
                    "  ",
                    v.text_or("id", "?"),
                ),
            ),
        ),
        Stage::Uploaded { path, rest } => line::say(
            report::members_line(&v, "id", "name", "?"),
            next_upload(path, rest),
        ),
        Stage::Report(t) => end(line::just(t)),
    }
}

/// What to do once a reply brought no value, but the failure `e`, and whether that was
/// for want of rights.
pub fn on_error(c: &Client, s: Stage, e: Failure, forbidden: bool) -> (step: Step<Next>)
    ensures
        step@ == error_known(c@, s@, e@, forbidden),
        holds_writable(s@) ==> sends_writable(step.next@),
{
    match s {
        Stage::Fields { short } => if forbidden {
            then_seen(c, short)
        } else {
            fail(e)
        },
        Stage::NewFields { short, body, fields } => then_typed(
            c,
            short.as_str(),
            body,
            fields,
            None,
        ),
        Stage::NewSeenFields { body, fields } => {
            let defs = fields::project_field_types(None, None);
            then_create(c, body, fields, &defs)
        },
        Stage::Commanded { id } => {
            let mut m = text::cat(id.as_str(), " created, but setting fields failed: ");
            m.append(e.message.as_str());
            fail(Failure { message: m })
        },
        _ => fail(e),
    }
}

/// What to do once a reply came.
pub fn on_reply(c: &Client, s: Stage, reply: Reply) -> (step: Step<Next>)
    ensures
        step@ == reply_known(
            c@,
            s@,
            client::reply_value(reply),
            client::is_forbidden(reply),
        ),
        holds_writable(s@) ==> sends_writable(step.next@),
{
    let forbidden = client::forbidden(&reply);
    match client::read(reply) {
        Ok(v) => on_value(c, s, v),
        Err(e) => on_error(c, s, e, forbidden),
    }
}

/// The first step of a command that reads on a server.
fn begin_reading(c: &Client, cmd: ReadCmd) -> (step: Step<Next>)
    ensures
        step@ == read_begun(c@, cmd),
{
    match cmd {
        ReadCmd::Issue(ReadIssueCmd::Ls { query, limit, full, merged_pr }) => {
            let what = if full {
                text::cat(LIST_FIELDS, ",description")
            } else {
                LIST_FIELDS.to_owned()
            };
            let q = ask_issues(
                c,
                query.as_str(),
                what.as_str(),
                number::decimal_text(limit as u128).as_str(),
            );
            send(q, Stage::Rows { limit, full, merged_pr })
        },
        ReadCmd::Issue(ReadIssueCmd::Show { id, comments, pr }) => {
            let q = ask_for(c, text::cat("issues/", id.as_str()).as_str(), ISSUE_FIELDS);
            send(q, Stage::Issue { id, comments, pr })
        },
        ReadCmd::Issue(ReadIssueCmd::Attachments { id, out }) => {
            let q = ask_for(
                c,
                text::cat3("issues/", id.as_str(), "/attachments").as_str(),
                "id,name,size,url",
            );
            let out = match out {
                None => None,
                Some(Some(dir)) => Some(dir),
                Some(None) => Some(".".to_owned()),
            };
            send(q, Stage::Attachments { out })
        },
        ReadCmd::Issue(ReadIssueCmd::Comments { id }) => send(
            ask_comments(c, id.as_str()),
            Stage::Comments,
        ),
        ReadCmd::Issue(ReadIssueCmd::Links { id }) => send(ask_links(c, id.as_str()), Stage::Links),
        ReadCmd::Issue(ReadIssueCmd::Tags) => send(ask_tags(c), Stage::Tags),
        ReadCmd::Project(ReadProjectCmd::Ls) => send(
            ask_for(c, "admin/projects", "shortName,name,archived").ask("$top", "500"),
            Stage::Projects,
        ),
        ReadCmd::Project(ReadProjectCmd::Fields { project }) => send(
            ask_projects(c),
            Stage::FieldsProject { project },
        ),
        ReadCmd::User(ReadUserCmd::Me) => send(
            ask_for(c, "users/me", "login,name,email"),
            Stage::Me,
        ),
        ReadCmd::User(ReadUserCmd::Ls { query }) => send(
            c.get("users").ask("query", query.as_str()).ask("fields", "login,name").ask(
                "$top",
                "10",
            ),
            Stage::Users,
        ),
        ReadCmd::Server(_) | ReadCmd::QueryHelp => line::quiet(Next::Done(false)),
    }
}

/// References to the issues `ids`.
fn references(ids: &Vec<String>) -> (r: Vec<Json>)
    ensures
        json::array_view(r@) == text::texts(ids@).map_values(
            |id: Seq<char>| lookup::reference(id),
        ),
{
    let mut r: Vec<Json> = Vec::new();
    let mut i: usize = 0;
    while i < ids.len()
        invariant
            i <= ids@.len(),
            r@.len() == i,
            forall|k: int| 0 <= k < i ==> (#[trigger] r@[k])@ == lookup::reference(ids@[k]@),
        decreases ids@.len() - i,
    {
        r.push(lookup::issue_ref(ids[i].as_str()));
        i += 1;
    }
    assert(json::array_view(r@) =~= text::texts(ids@).map_values(
        |id: Seq<char>| lookup::reference(id),
    ));
    r
}

/// The first step of a command that writes on a server.
fn begin_writing(c: &Client, cmd: WriteCmd) -> (step: Step<Next>)
    ensures
        step@ == write_begun(c@, cmd),
{
    match cmd {
        WriteCmd::Issue(WriteIssueCmd::New { project, summary, desc, field }) => send(
            ask_projects(c),
            Stage::NewProject { project, summary, desc, fields: field },
        ),
        WriteCmd::Issue(WriteIssueCmd::Edit { id, summary, desc }) => {
            let asked = match &desc {
                Some(d) => text::same(d.as_str(), "-"),
                None => false,
            };
            if asked {
                line::quiet(Next::ReadInput(Prompt::EditDesc { id, summary }))
            } else {
                then_edit(c, id, summary, desc)
            }
        },
        WriteCmd::Issue(WriteIssueCmd::Attach { id, files, comment }) => {
            let mut path = text::cat("issues/", id.as_str());
            if let Some(cid) = &comment {
                path.append("/comments/");
                path.append(cid.as_str());
            }
            path.append("/attachments");
            line::quiet(next_upload(path, files))
        },
        WriteCmd::Issue(WriteIssueCmd::Comment { id, text }) => match text {
            Some(t) => then_comment(c, id.as_str(), t.as_str()),
            None => line::quiet(Next::ReadInput(Prompt::CommentText { id })),
        },
        WriteCmd::Issue(WriteIssueCmd::Link { id, phrase, target }) => {
            let q = ask_links(c, id.as_str());
            send(q, Stage::LinkGroup { id, phrase, target })
        },
        WriteCmd::Issue(WriteIssueCmd::Unlink { id, phrase, target }) => {
            let q = ask_links(c, id.as_str());
            send(q, Stage::UnlinkGroup { id, phrase, target })
        },
        WriteCmd::Issue(WriteIssueCmd::Cmd { command, ids, comment }) => {
            let body = Json::object().with("query", Json::Text(command)).with(
                "issues",
                Json::Array(references(&ids)),
            );
            send(
                c.post("commands", add_text(body, "comment", comment)),
                Stage::Report("ok".to_owned()),
            )
        },
        WriteCmd::Issue(WriteIssueCmd::Tag { id, tag }) => send(
            ask_tags(c),
            Stage::Tag { id, tag },
        ),
        WriteCmd::Issue(WriteIssueCmd::Untag { id, tag }) => send(
            ask_tags(c),
            Stage::Untag { id, tag },
        ),
        WriteCmd::Project(WriteProjectCmd::Create { short, name }) => send(
            ask_for(c, "users/me", "id"),
            Stage::Leader { short, name },
        ),
        WriteCmd::Server(_) | WriteCmd::Update { .. } => line::quiet(Next::Done(false)),
    }
}

/// The first step of a command that is carried out on a server.
pub fn begin(c: &Client, cmd: Cmd) -> (step: Step<Next>)
    requires
        !command::is_local(cmd),
    ensures
        step@ == begun(c@, cmd),
        sends_writable(step.next@),
{
    proof {
        law_first_step_can_be_sent(c@, cmd);
    }
    match cmd {
        Cmd::Read(r) => begin_reading(c, r),
        Cmd::Write(w) => begin_writing(c, w),
    }
}

} // verus!
