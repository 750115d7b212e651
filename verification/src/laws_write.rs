//! What the commands that write send to the server, and what they print of its replies.

use vstd::prelude::*;
use crate::client::{BodyView, ClientView, RequestView};
use crate::client;
use crate::command::{Cmd, WriteCmd, WriteIssueCmd, WriteProjectCmd};
use crate::fields;
use crate::json::JsonView;
use crate::laws_lists;
use crate::laws_read;
use crate::laws_shown;
use crate::line::LineView;
use crate::lookup;
use crate::session::{Answer, FileRead, NextView, StageView, UploadsView};
use crate::session;
use crate::sorted;
use crate::text;

verus! {

// ---- a new issue ----

/// Whether a value is a new issue of the project `pid`: an object with that project, the
/// summary, the description where there is one, perhaps fields, and nothing else.
pub open spec fn is_issue(
    v: JsonView,
    pid: Seq<char>,
    summary: Seq<char>,
    desc: Option<Seq<char>>,
) -> bool {
    v matches JsonView::Object(m) && {
        &&& m.contains_key("project"@) && m["project"@] == JsonView::Object(
            map!["id"@ => JsonView::Text(pid)],
        )
        &&& m.contains_key("summary"@) && m["summary"@] == JsonView::Text(summary)
        &&& desc matches Some(d) ==> m.contains_key("description"@) && m["description"@]
            == JsonView::Text(d)
        &&& desc is None ==> !m.contains_key("description"@)
        &&& forall|k: Seq<char>| #[trigger]
            m.contains_key(k) ==> k == "project"@ || k == "summary"@ || k == "description"@ || k
                == "customFields"@
    }
}

/// The command that creates an issue.
pub open spec fn new_issue(
    project: String,
    summary: String,
    desc: Option<String>,
    field: Vec<String>,
) -> Cmd {
    Cmd::Write(WriteCmd::Issue(WriteIssueCmd::New { project, summary, desc, field }))
}

/// The members of an issue have different names.
proof fn lemma_members()
    ensures
        "project"@ != "summary"@,
        "project"@ != "description"@,
        "project"@ != "customFields"@,
        "summary"@ != "description"@,
        "summary"@ != "customFields"@,
        "description"@ != "customFields"@,
{
    reveal_strlit("project");
    reveal_strlit("summary");
    reveal_strlit("description");
    reveal_strlit("customFields");
    assert("project"@[0] == 'p' && "summary"@[0] == 's' && "description"@[0] == 'd'
        && "customFields"@[0] == 'c');
}

proof fn lemma_body(pid: Seq<char>, summary: Seq<char>, desc: Option<Seq<char>>)
    ensures
        is_issue(session::new_body(pid, summary, desc), pid, summary, desc),
        !session::new_body(pid, summary, desc)->Object_0.contains_key("customFields"@),
{
    lemma_members();
    assert(fields::single("id"@, pid)->Object_0 =~= map!["id"@ => JsonView::Text(pid)]);
}

/// Whether what is next in the creation of an issue carries it whole, now or later.
spec fn keeps(
    c: ClientView,
    n: NextView,
    pid: Seq<char>,
    summary: Seq<char>,
    desc: Option<Seq<char>>,
) -> bool {
    match n {
        NextView::Send(r, StageView::Created { .. }) => r.body matches BodyView::Value(o)
            && is_issue(o, pid, summary, desc),
        NextView::Send(r, StageView::NewFields { body, .. }) => r.method == "GET"@ && is_issue(
            body,
            pid,
            summary,
            desc,
        ),
        NextView::Send(r, StageView::NewSeenFields { body, .. }) => r.method == "GET"@ && is_issue(
            body,
            pid,
            summary,
            desc,
        ),
        NextView::Send(r, StageView::Commanded { .. }) => r.url == c.base + "/"@ + "commands"@,
        NextView::Done(_) => true,
        NextView::Fail(_) => true,
        _ => false,
    }
}

proof fn lemma_keeps(
    c: ClientView,
    n: NextView,
    a: Answer,
    pid: Seq<char>,
    summary: Seq<char>,
    desc: Option<Seq<char>>,
)
    requires
        keeps(c, n, pid, summary, desc),
    ensures
        keeps(c, session::followed(c, n, a).next, pid, summary, desc),
{
    lemma_members();
}

proof fn lemma_keeps_on(
    c: ClientView,
    n: NextView,
    rest: Seq<Answer>,
    pid: Seq<char>,
    summary: Seq<char>,
    desc: Option<Seq<char>>,
)
    requires
        keeps(c, n, pid, summary, desc),
    ensures
        keeps(c, session::after(c, n, rest), pid, summary, desc),
    decreases rest.len(),
{
    if rest.len() > 0 {
        lemma_keeps_on(c, n, rest.drop_last(), pid, summary, desc);
        lemma_keeps(
            c,
            session::after(c, n, rest.drop_last()),
            rest.last(),
            pid,
            summary,
            desc,
        );
    }
}

/// Whether what is next, where it creates an issue, creates the right one.
pub open spec fn creates_only(
    c: ClientView,
    n: NextView,
    pid: Seq<char>,
    summary: Seq<char>,
    desc: Option<Seq<char>>,
) -> bool {
    n matches NextView::Send(r, _) ==> (r.method == "POST"@ && r.url == c.base + "/"@ + "issues"@
        ==> (r.body matches BodyView::Value(o) && is_issue(o, pid, summary, desc)))
}

proof fn lemma_creates_only(
    c: ClientView,
    n: NextView,
    pid: Seq<char>,
    summary: Seq<char>,
    desc: Option<Seq<char>>,
)
    requires
        keeps(c, n, pid, summary, desc),
    ensures
        creates_only(c, n, pid, summary, desc),
{
    reveal_strlit("GET");
    reveal_strlit("POST");
    reveal_strlit("issues");
    reveal_strlit("commands");
    let a = c.base + "/"@ + "issues"@;
    let b = c.base + "/"@ + "commands"@;
    assert("GET"@.len() != "POST"@.len());
    assert(a.len() != b.len());
}

/// An issue is created in the project that is found, with the summary given and the
/// description given, or none where none is, whatever fields are given and whatever the
/// server answers.
pub proof fn law_new_issue_is_whole(
    c: ClientView,
    project: String,
    summary: String,
    desc: Option<String>,
    field: Vec<String>,
    projects: JsonView,
    i: int,
    rest: Seq<Answer>,
)
    requires
        laws_lists::project_at(projects.items(), project@, i),
        text::opt_text(desc) != Some("-"@),
    ensures
        ({
            let first = session::begun(c, new_issue(project, summary, desc, field));
            let n = session::after(c, laws_read::told(c, first.next, projects).next, rest);
            creates_only(
                c,
                n,
                laws_read::said(projects.items()[i], "id"@, ""@),
                summary@,
                match desc {
                    Some(d) => Some(d@),
                    None => None,
                },
            )
        }),
{
    let pid = laws_read::said(projects.items()[i], "id"@, ""@);
    let d = text::opt_text(desc);
    let first = session::begun(c, new_issue(project, summary, desc, field));
    let n = laws_read::told(c, first.next, projects).next;
    laws_lists::lemma_project_at(projects, project@, i);
    lemma_body(pid, summary@, d);
    assert(keeps(c, n, pid, summary@, d));
    lemma_keeps_on(c, n, rest, pid, summary@, d);
    lemma_creates_only(c, session::after(c, n, rest), pid, summary@, d);
}

/// Where the description is to be read, it is asked for once the project is found, and
/// the issue is created with what was read, white space at its end aside.
pub proof fn law_new_issue_is_described_by_input(
    c: ClientView,
    project: String,
    summary: String,
    desc: Option<String>,
    field: Vec<String>,
    projects: JsonView,
    i: int,
    input: Seq<char>,
    rest: Seq<Answer>,
)
    requires
        laws_lists::project_at(projects.items(), project@, i),
        text::opt_text(desc) == Some("-"@),
    ensures
        ({
            let first = session::begun(c, new_issue(project, summary, desc, field));
            let asked = laws_read::told(c, first.next, projects);
            let read = session::followed(c, asked.next, Answer::Input(input));
            &&& asked.next is ReadInput
            &&& asked.lines.len() == 0
            &&& read.next is Send
            &&& creates_only(
                c,
                session::after(c, read.next, rest),
                laws_read::said(projects.items()[i], "id"@, ""@),
                summary@,
                Some(text::trimmed_end(input)),
            )
        }),
{
    let pid = laws_read::said(projects.items()[i], "id"@, ""@);
    let d = Some(text::trimmed_end(input));
    let first = session::begun(c, new_issue(project, summary, desc, field));
    laws_lists::lemma_project_at(projects, project@, i);
    let n = session::followed(
        c,
        laws_read::told(c, first.next, projects).next,
        Answer::Input(input),
    ).next;
    lemma_body(pid, summary@, d);
    assert(keeps(c, n, pid, summary@, d));
    lemma_keeps_on(c, n, rest, pid, summary@, d);
    lemma_creates_only(c, session::after(c, n, rest), pid, summary@, d);
}

/// What is created: the issue, its fields in it, and what is left to be set by a command.
pub open spec fn creates(
    c: ClientView,
    n: NextView,
    pid: Seq<char>,
    summary: Seq<char>,
    desc: Option<Seq<char>>,
    entries: Option<Seq<JsonView>>,
) -> bool {
    n matches NextView::Send(r, _) && r.body matches BodyView::Value(o) && {
        &&& r == laws_read::api_request(
            c,
            "POST"@,
            "issues"@,
            seq![("fields"@, "idReadable"@)],
            BodyView::Value(o),
        )
        &&& is_issue(o, pid, summary, desc)
        &&& o->Object_0.contains_key("customFields"@) <==> entries is Some
        &&& entries matches Some(a) ==> o->Object_0["customFields"@] == JsonView::Array(a)
    }
}

/// Whether what the server says once an issue is created ends the command: the id of the
/// issue is printed, and before that the fields that are left are set on it by one
/// command, in the order given.
pub open spec fn finishes(
    c: ClientView,
    n: NextView,
    left: Seq<Seq<char>>,
    v: JsonView,
    w: JsonView,
    e: Seq<char>,
    forbidden: bool,
) -> bool {
    let step = laws_read::told(c, n, v);
    let set = laws_read::told(c, step.next, w);
    let unset = session::followed(c, step.next, Answer::Reply(Err(e), forbidden));
    match v.member("idReadable"@) {
        JsonView::Text(id) => if left.len() == 0 {
            step.lines == seq![LineView::Plain(id)] && step.next == NextView::Done(true)
        } else {
            &&& step.lines.len() == 0
            &&& laws_read::posts(
                c,
                step.next,
                "commands"@,
                Seq::empty(),
                JsonView::Object(
                    map![
                        "query"@ => JsonView::Text(text::joined(left, " "@)),
                        "issues"@ => JsonView::Array(
                            seq![JsonView::Object(map!["idReadable"@ => JsonView::Text(id)])],
                        ),
                    ],
                ),
            )
            &&& set.lines == seq![LineView::Plain(id)]
            &&& set.next == NextView::Done(true)
            &&& unset.next == NextView::Fail(id + " created, but setting fields failed: "@ + e)
        },
        _ => step.next == NextView::Fail("create returned no id"@),
    }
}

proof fn lemma_finishes(
    c: ClientView,
    r: RequestView,
    left: Seq<Seq<char>>,
    v: JsonView,
    w: JsonView,
    e: Seq<char>,
    forbidden: bool,
)
    ensures
        finishes(
            c,
            NextView::Send(r, (StageView::Created { fields: left })),
            left,
            v,
            w,
            e,
            forbidden,
        ),
{
    if let JsonView::Text(id) = v.member("idReadable"@) {
        let m = session::set_fields(id, left);
        assert(fields::single("idReadable"@, id)->Object_0 =~= map![
            "idReadable"@ => JsonView::Text(id),
        ]);
        assert(m->Object_0 =~= map![
            "query"@ => JsonView::Text(text::joined(left, " "@)),
            "issues"@ => JsonView::Array(
                seq![JsonView::Object(map!["idReadable"@ => JsonView::Text(id)])],
            ),
        ]);
    }
}

/// Whether an issue is created with the fields `given` in it, one entry each, where every
/// one of them can be told, and else without, to be set by a command.
pub open spec fn creates_with(
    c: ClientView,
    n: NextView,
    pid: Seq<char>,
    summary: Seq<char>,
    desc: Option<Seq<char>>,
    given: Seq<Seq<char>>,
    defs: Seq<(Seq<char>, Seq<char>)>,
    v: JsonView,
    w: JsonView,
    e: Seq<char>,
    forbidden: bool,
) -> bool {
    let all = defs.len() > 0 && forall|k: int|
        0 <= k < given.len() ==> fields::asked_entry(defs, #[trigger] given[k]) is Some;
    let a = Seq::new(given.len(), |k: int| fields::asked_entry(defs, given[k])->Some_0);
    if all {
        creates(c, n, pid, summary, desc, Some(a)) && finishes(
            c,
            n,
            Seq::empty(),
            v,
            w,
            e,
            forbidden,
        )
    } else {
        creates(c, n, pid, summary, desc, None) && finishes(c, n, given, v, w, e, forbidden)
    }
}

proof fn lemma_creates_with(
    c: ClientView,
    pid: Seq<char>,
    summary: Seq<char>,
    desc: Option<Seq<char>>,
    given: Seq<Seq<char>>,
    defs: Seq<(Seq<char>, Seq<char>)>,
    v: JsonView,
    w: JsonView,
    e: Seq<char>,
    forbidden: bool,
)
    ensures
        creates_with(
            c,
            session::new_typed(c, session::new_body(pid, summary, desc), given, defs).next,
            pid,
            summary,
            desc,
            given,
            defs,
            v,
            w,
            e,
            forbidden,
        ),
{
    let body = session::new_body(pid, summary, desc);
    let q = ("fields"@, "idReadable"@);
    laws_read::lemma_query(q, q, q);
    lemma_members();
    lemma_body(pid, summary, desc);
    fields::law_all_fields_are_told_or_none(defs, given);
    let n = session::new_typed(c, body, given, defs).next;
    let a = Seq::new(given.len(), |k: int| fields::asked_entry(defs, given[k])->Some_0);
    match fields::custom_fields(defs, given) {
        Some(cf) => {
            assert(cf->Array_0 =~= a);
            let r = session::create_request(c, session::with_member(body, "customFields"@, cf));
            lemma_finishes(c, r, Seq::empty(), v, w, e, forbidden);
        },
        None => {
            lemma_finishes(c, session::create_request(c, body), given, v, w, e, forbidden);
        },
    }
}

/// The value of a reply, where it has one.
pub open spec fn value_of(told: Result<JsonView, Seq<char>>) -> Option<JsonView> {
    match told {
        Ok(v) => Some(v),
        Err(_) => None,
    }
}

/// To create an issue is to find its project, to learn the types of its fields where any
/// are given, from the project or else from some of its issues, and to create it with
/// them; a refusal of what would tell the types is no hindrance. The id is printed alone.
pub proof fn law_new_issue_is_created(
    c: ClientView,
    project: String,
    summary: String,
    desc: Option<String>,
    field: Vec<String>,
    projects: JsonView,
    i: int,
    config: Result<JsonView, Seq<char>>,
    sample: Result<JsonView, Seq<char>>,
    v: JsonView,
    w: JsonView,
    e: Seq<char>,
    forbidden: bool,
)
    requires
        laws_lists::project_at(projects.items(), project@, i),
        text::opt_text(desc) != Some("-"@),
    ensures
        ({
            let pid = laws_read::said(projects.items()[i], "id"@, ""@);
            let short = laws_read::said(projects.items()[i], "shortName"@, project@);
            let d = text::opt_text(desc);
            let given = text::texts(field@);
            let first = session::begun(c, new_issue(project, summary, desc, field));
            let found = laws_read::told(c, first.next, projects);
            let typed = session::followed(c, found.next, Answer::Reply(config, forbidden));
            let sampled = session::followed(c, typed.next, Answer::Reply(sample, forbidden));
            let listed = fields::field_types(value_of(config), None);
            let seen = fields::field_types(None, value_of(sample));
            &&& first.lines.len() == 0 && found.lines.len() == 0
            &&& laws_read::asks(
                c,
                first.next,
                "admin/projects"@,
                seq![("fields"@, "id,shortName,name"@), ("$top"@, "500"@)],
            )
            &&& given.len() == 0 ==> creates(c, found.next, pid, summary@, d, None) && finishes(
                c,
                found.next,
                Seq::empty(),
                v,
                w,
                e,
                forbidden,
            )
            &&& given.len() > 0 ==> laws_read::asks(
                c,
                found.next,
                "admin/projects/"@ + pid + "/customFields"@,
                seq![("fields"@, "field(name,fieldType(id))"@), ("$top"@, "200"@)],
            )
            &&& given.len() > 0 && listed.len() > 0 ==> creates_with(
                c,
                typed.next,
                pid,
                summary@,
                d,
                given,
                listed,
                v,
                w,
                e,
                forbidden,
            )
            &&& given.len() > 0 && listed.len() == 0 ==> laws_read::asks(
                c,
                typed.next,
                "issues"@,
                seq![
                    ("query"@, "project: "@ + short),
                    ("fields"@, "customFields($type,name)"@),
                    ("$top"@, "100"@),
                ],
            ) && creates_with(
                c,
                sampled.next,
                pid,
                summary@,
                d,
                given,
                seen,
                v,
                w,
                e,
                forbidden,
            )
        }),
{
    let pid = laws_read::said(projects.items()[i], "id"@, ""@);
    let short = laws_read::said(projects.items()[i], "shortName"@, project@);
    let d = text::opt_text(desc);
    let given = text::texts(field@);
    let a = ("$top"@, "500"@);
    let b = ("$top"@, "200"@);
    let q = ("fields"@, "idReadable"@);
    laws_read::lemma_query(("fields"@, "id,shortName,name"@), a, a);
    laws_read::lemma_query(("fields"@, "field(name,fieldType(id))"@), b, b);
    laws_read::lemma_query(
        ("query"@, "project: "@ + short),
        ("fields"@, "customFields($type,name)"@),
        ("$top"@, "100"@),
    );
    laws_read::lemma_query(q, q, q);
    laws_lists::lemma_project_at(projects, project@, i);
    lemma_body(pid, summary@, d);
    let body = session::new_body(pid, summary@, d);
    if given.len() == 0 {
        assert(given =~= Seq::empty());
        lemma_finishes(c, session::create_request(c, body), given, v, w, e, forbidden);
    }
    let listed = fields::field_types(value_of(config), None);
    let seen = fields::field_types(None, value_of(sample));
    lemma_creates_with(c, pid, summary@, d, given, listed, v, w, e, forbidden);
    lemma_creates_with(c, pid, summary@, d, given, seen, v, w, e, forbidden);
}

/// No issue is created in a project that is not found.
pub proof fn law_new_issue_needs_a_project(
    c: ClientView,
    project: String,
    summary: String,
    desc: Option<String>,
    field: Vec<String>,
    projects: JsonView,
)
    requires
        forall|k: int|
            0 <= k < projects.items().len() ==> !laws_lists::project_is(
                #[trigger] projects.items()[k],
                project@,
            ),
    ensures
        laws_read::told(
            c,
            session::begun(c, new_issue(project, summary, desc, field)).next,
            projects,
        ).next == NextView::Fail("project not found: "@ + project@),
{
    laws_lists::lemma_project_at(projects, project@, 0);
}

/// A description that is read is sent as one that is given would be.
pub proof fn law_input_is_as_good_as_given(
    c: ClientView,
    project: String,
    summary: String,
    dash: Option<String>,
    desc: Option<String>,
    field: Vec<String>,
    projects: JsonView,
    i: int,
    input: Seq<char>,
)
    requires
        laws_lists::project_at(projects.items(), project@, i),
        text::opt_text(dash) == Some("-"@),
        text::opt_text(desc) == Some(text::trimmed_end(input)),
        text::opt_text(desc) != Some("-"@),
    ensures
        session::followed(
            c,
            laws_read::told(
                c,
                session::begun(c, new_issue(project, summary, dash, field)).next,
                projects,
            ).next,
            Answer::Input(input),
        ) == laws_read::told(
            c,
            session::begun(c, new_issue(project, summary, desc, field)).next,
            projects,
        ),
{
    laws_lists::lemma_project_at(projects, project@, i);
}

// ---- changes ----

/// Whether a step prints nothing, and what the server says next, whatever it is, ends the
/// command with the line `t`.
pub open spec fn then_says(
    c: ClientView,
    lines: Seq<LineView>,
    n: NextView,
    v: JsonView,
    t: Seq<char>,
) -> bool {
    let last = laws_read::told(c, n, v);
    lines.len() == 0 && last.lines == seq![LineView::Plain(t)] && last.next == NextView::Done(true)
}

/// Whether a value is an object of the summary and the description, as far as there are
/// any, and nothing else.
pub open spec fn is_edit(v: JsonView, summary: Option<Seq<char>>, desc: Option<Seq<char>>) -> bool {
    v matches JsonView::Object(m) && {
        &&& summary matches Some(t) ==> m.contains_key("summary"@) && m["summary"@]
            == JsonView::Text(t)
        &&& summary is None ==> !m.contains_key("summary"@)
        &&& desc matches Some(t) ==> m.contains_key("description"@) && m["description"@]
            == JsonView::Text(t)
        &&& desc is None ==> !m.contains_key("description"@)
        &&& forall|k: Seq<char>| #[trigger]
            m.contains_key(k) ==> k == "summary"@ || k == "description"@
    }
}

/// Whether what is next is the change of the issue `id`.
pub open spec fn edits(
    c: ClientView,
    n: NextView,
    id: Seq<char>,
    summary: Option<Seq<char>>,
    desc: Option<Seq<char>>,
) -> bool {
    n matches NextView::Send(r, _) && r.body matches BodyView::Value(o) && {
        &&& r == laws_read::api_request(
            c,
            "POST"@,
            "issues/"@ + id,
            seq![("fields"@, "idReadable"@)],
            BodyView::Value(o),
        )
        &&& is_edit(o, summary, desc)
    }
}

/// To edit an issue is to send its summary and its description, as far as they are given;
/// a description that is to be read is asked for first. The id is printed. With neither
/// given, nothing is sent.
pub proof fn law_issue_is_edited(
    c: ClientView,
    id: String,
    summary: Option<String>,
    desc: Option<String>,
    input: Seq<char>,
    v: JsonView,
)
    ensures
        ({
            let first = session::begun(
                c,
                Cmd::Write(WriteCmd::Issue(WriteIssueCmd::Edit { id, summary, desc })),
            );
            let read = session::followed(c, first.next, Answer::Input(input));
            let s = text::opt_text(summary);
            let d = text::opt_text(desc);
            &&& d == Some("-"@) ==> first.next is ReadInput && first.lines.len() == 0 && edits(
                c,
                read.next,
                id@,
                s,
                Some(text::trimmed_end(input)),
            ) && then_says(c, read.lines, read.next, v, id@)
            &&& d != Some("-"@) && (s is Some || d is Some) ==> edits(c, first.next, id@, s, d)
                && then_says(c, first.lines, first.next, v, id@)
            &&& s is None && d is None ==> first.next == NextView::Fail(
                "nothing to edit: pass --summary and/or --desc"@,
            )
        }),
{
    lemma_members();
    let q = ("fields"@, "idReadable"@);
    laws_read::lemma_query(q, q, q);
}

/// To comment on an issue is to send the text, or what is read where none is given, white
/// space at its end aside. Nothing is sent of an empty one.
pub proof fn law_comment_is_sent(
    c: ClientView,
    id: String,
    given: Option<String>,
    input: Seq<char>,
    v: JsonView,
)
    ensures
        ({
            let first = session::begun(
                c,
                Cmd::Write(WriteCmd::Issue(WriteIssueCmd::Comment { id, text: given })),
            );
            let step = if given is None {
                session::followed(c, first.next, Answer::Input(input))
            } else {
                first
            };
            let t = match given {
                Some(t) => t@,
                None => text::trimmed_end(input),
            };
            &&& given is None ==> first.next is ReadInput && first.lines.len() == 0
            &&& t.len() == 0 ==> step.next == NextView::Fail("empty comment"@)
            &&& t.len() > 0 ==> laws_read::posts(
                c,
                step.next,
                "issues/"@ + id@ + "/comments"@,
                Seq::empty(),
                JsonView::Object(map!["text"@ => JsonView::Text(t)]),
            ) && then_says(c, step.lines, step.next, v, "ok"@)
        }),
{
    let t = match given {
        Some(t) => t@,
        None => text::trimmed_end(input),
    };
    assert(fields::single("text"@, t)->Object_0 =~= map!["text"@ => JsonView::Text(t)]);
}

/// To apply a command is to send it for all the issues named, in order, with the comment
/// where there is one.
pub proof fn law_command_is_applied(
    c: ClientView,
    command: String,
    ids: Vec<String>,
    comment: Option<String>,
    v: JsonView,
)
    ensures
        ({
            let first = session::begun(
                c,
                Cmd::Write(WriteCmd::Issue(WriteIssueCmd::Cmd { command, ids, comment })),
            );
            first.next matches NextView::Send(r, _) && r.body matches BodyView::Value(
                JsonView::Object(m),
            ) && {
                &&& r == laws_read::api_request(
                    c,
                    "POST"@,
                    "commands"@,
                    Seq::empty(),
                    BodyView::Value(JsonView::Object(m)),
                )
                &&& m.contains_key("query"@) && m["query"@] == JsonView::Text(command@)
                &&& m.contains_key("issues"@) && m["issues"@].items().len() == ids@.len()
                &&& forall|k: int|
                    0 <= k < ids@.len() ==> refers(m["issues"@].items()[k], (#[trigger] ids@[k])@)
                &&& comment matches Some(t) ==> m.contains_key("comment"@) && m["comment"@]
                    == JsonView::Text(t@)
                &&& comment is None ==> !m.contains_key("comment"@)
                &&& forall|k: Seq<char>| #[trigger]
                    m.contains_key(k) ==> k == "query"@ || k == "issues"@ || k == "comment"@
                &&& then_says(c, first.lines, first.next, v, "ok"@)
            }
        }),
{
    reveal_strlit("query");
    reveal_strlit("issues");
    reveal_strlit("comment");
    assert("query"@[0] == 'q' && "issues"@[0] == 'i' && "comment"@[0] == 'c');
    let s = text::texts(ids@);
    let body = session::command_body(command@, s, text::opt_text(comment));
    assert(body->Object_0["issues"@].items().len() == ids@.len());
    assert forall|k: int| 0 <= k < ids@.len() implies refers(
        body->Object_0["issues"@].items()[k],
        (#[trigger] ids@[k])@,
    ) by {
        assert(body->Object_0["issues"@].items()[k] == lookup::reference(s[k]));
        assert(s[k] == ids@[k]@);
        let id = s[k];
        if lookup::is_internal(id) {
            assert(lookup::reference(id)->Object_0 =~= map!["id"@ => JsonView::Text(id)]);
            text::lemma_run(id, text::just('-'));
            let n = text::run(id, text::just('-')) as int;
            assert(is_number_pair(id)) by {
                assert(id[n] == '-');
                assert(number_pair_at(id, n));
            }
        } else {
            assert(lookup::reference(id)->Object_0 =~= map!["idReadable"@ => JsonView::Text(id)]);
            if is_number_pair(id) {
                let n = choose|n: int| number_pair_at(id, n);
                laws_shown::law_issues_are_referred_to(id, n);
                reveal_strlit("id");
                reveal_strlit("idReadable");
                let a = lookup::reference(id)->Object_0;
                assert(a == map!["id"@ => JsonView::Text(id)]);
                assert("id"@.len() != "idReadable"@.len());
                assert(a.contains_key("idReadable"@));
            }
        }
    }
}

/// Whether a text is digits up to `n`, a hyphen there, and digits behind it.
pub open spec fn number_pair_at(id: Seq<char>, n: int) -> bool {
    &&& 0 < n < id.len() - 1
    &&& id[n] == '-'
    &&& forall|i: int| 0 <= i < id.len() && i != n ==> text::is_digit(#[trigger] id[i])
}

/// Whether a text is digits, a hyphen and digits.
pub open spec fn is_number_pair(id: Seq<char>) -> bool {
    exists|n: int| number_pair_at(id, n)
}

/// Whether a value refers to the issue `id`.
pub open spec fn refers(v: JsonView, id: Seq<char>) -> bool {
    v == JsonView::Object(
        if is_number_pair(id) {
            map!["id"@ => JsonView::Text(id)]
        } else {
            map!["idReadable"@ => JsonView::Text(id)]
        },
    )
}

// ---- links ----

/// The words of a group of links.
pub open spec fn group_is(g: JsonView, phrase: Seq<char>) -> bool {
    text::lowered(laws_shown::told_phrase(g)) == text::lowered(phrase)
}

/// Whether the first of the groups `s` that is told by `phrase` is the one at `i`.
pub open spec fn group_at(s: Seq<JsonView>, phrase: Seq<char>, i: int) -> bool {
    &&& 0 <= i < s.len()
    &&& group_is(s[i], phrase)
    &&& forall|k: int| 0 <= k < i ==> !group_is(#[trigger] s[k], phrase)
}

proof fn lemma_group_at(links: JsonView, phrase: Seq<char>, i: int)
    requires
        group_at(links.items(), phrase, i),
    ensures
        lookup::group_found(links, phrase, lookup::debugged(phrase)) == Ok::<Seq<char>, Seq<char>>(
            laws_read::said(links.items()[i], "id"@, ""@),
        ),
{
    laws_shown::law_link_groups_are_found(links, phrase, lookup::debugged(phrase), i);
}

/// The query for the links of an issue.
pub open spec fn link_query() -> Seq<(Seq<char>, Seq<char>)> {
    seq![
        (
            "fields"@,
            "id,direction,linkType(name,sourceToTarget,targetToSource),issues(idReadable,summary)"@,
        ),
    ]
}

proof fn lemma_link_query()
    ensures
        Seq::empty().push(
            (
                "fields"@,
                "id,direction,linkType(name,sourceToTarget,targetToSource),issues(idReadable,summary)"@,
            ),
        ) == link_query(),
{
    let q = (
        "fields"@,
        "id,direction,linkType(name,sourceToTarget,targetToSource),issues(idReadable,summary)"@,
    );
    laws_read::lemma_query(q, q, q);
}

/// To link an issue is to ask for the groups of its links and to put the target into the
/// first that is told by the words.
pub proof fn law_issue_is_linked(
    c: ClientView,
    id: String,
    phrase: String,
    target: String,
    links: JsonView,
    i: int,
    v: JsonView,
)
    requires
        group_at(links.items(), phrase@, i),
    ensures
        ({
            let first = session::begun(
                c,
                Cmd::Write(WriteCmd::Issue(WriteIssueCmd::Link { id, phrase, target })),
            );
            let step = laws_read::told(c, first.next, links);
            &&& first.lines.len() == 0
            &&& laws_read::asks(c, first.next, "issues/"@ + id@ + "/links"@, link_query())
            &&& laws_read::posts(
                c,
                step.next,
                "issues/"@ + id@ + "/links/"@ + laws_read::said(links.items()[i], "id"@, ""@)
                    + "/issues"@,
                seq![("fields"@, "idReadable"@)],
                JsonView::Object(map!["idReadable"@ => JsonView::Text(target@)]),
            )
            &&& then_says(
                c,
                step.lines,
                step.next,
                v,
                id@ + " "@ + phrase@ + " "@ + target@,
            )
        }),
{
    lemma_link_query();
    let q = ("fields"@, "idReadable"@);
    laws_read::lemma_query(q, q, q);
    lemma_group_at(links, phrase@, i);
    assert(fields::single("idReadable"@, target@)->Object_0 =~= map![
        "idReadable"@ => JsonView::Text(target@),
    ]);
}

/// To unlink an issue is to ask for the groups of its links, then for the target's internal
/// id, and to delete the target from the first group that is told by the words.
pub proof fn law_issue_is_unlinked(
    c: ClientView,
    id: String,
    phrase: String,
    target: String,
    links: JsonView,
    i: int,
    issue: JsonView,
    v: JsonView,
)
    requires
        group_at(links.items(), phrase@, i),
    ensures
        ({
            let first = session::begun(
                c,
                Cmd::Write(WriteCmd::Issue(WriteIssueCmd::Unlink { id, phrase, target })),
            );
            let found = laws_read::told(c, first.next, links);
            let step = laws_read::told(c, found.next, issue);
            &&& first.lines.len() == 0 && found.lines.len() == 0
            &&& laws_read::asks(c, first.next, "issues/"@ + id@ + "/links"@, link_query())
            &&& laws_read::asks(c, found.next, "issues/"@ + target@, seq![("fields"@, "id"@)])
            &&& match issue.member("id"@) {
                JsonView::Text(t) => laws_read::deletes(
                    c,
                    step.next,
                    "issues/"@ + id@ + "/links/"@ + laws_read::said(links.items()[i], "id"@, ""@)
                        + "/issues"@ + "/"@ + t,
                ) && then_says(c, step.lines, step.next, v, id@ + " unlinked "@ + target@),
                _ => step.next == NextView::Fail("no such issue: "@ + target@),
            }
        }),
{
    lemma_link_query();
    let q = ("fields"@, "id"@);
    laws_read::lemma_query(q, q, q);
    lemma_group_at(links, phrase@, i);
}

/// Words that no group of links is told by are refused, with all those that are accepted,
/// in order and each once.
pub proof fn law_unknown_phrases_are_refused(
    c: ClientView,
    id: String,
    phrase: String,
    target: String,
    links: JsonView,
    accepted: Seq<Seq<char>>,
)
    requires
        forall|k: int|
            0 <= k < links.items().len() ==> !group_is(#[trigger] links.items()[k], phrase@),
        sorted::ascending(accepted),
        forall|p: Seq<char>| #[trigger]
            accepted.contains(p) <==> p.len() > 0 && exists|k: int|
                0 <= k < links.items().len() && laws_shown::told_phrase(#[trigger] links.items()[k])
                    == p,
    ensures
        ({
            let a = session::begun(
                c,
                Cmd::Write(WriteCmd::Issue(WriteIssueCmd::Link { id, phrase, target })),
            );
            let b = session::begun(
                c,
                Cmd::Write(WriteCmd::Issue(WriteIssueCmd::Unlink { id, phrase, target })),
            );
            let message = "unknown link phrase "@ + lookup::debugged(phrase@)
                + "; this server accepts: "@ + text::joined(accepted, ", "@);
            &&& laws_read::told(c, a.next, links).next == NextView::Fail(message)
            &&& laws_read::told(c, b.next, links).next == NextView::Fail(message)
        }),
{
    let s = links.items();
    laws_shown::law_link_groups_are_found(links, phrase@, lookup::debugged(phrase@), 0);
    assert forall|p: Seq<char>| lookup::phrases(s).contains(p) <==> #[trigger] accepted.contains(p) by {
        laws_shown::law_accepted_phrases_are_those_told(s, p);
    }
    assert(sorted::lists(accepted, lookup::phrases(s)));
    sorted::lemma_in_order(accepted, lookup::phrases(s));
}

// ---- tags ----

/// Whether the first of the tags `s` that goes by `name` is the one at `i`.
pub open spec fn tag_at(s: Seq<JsonView>, name: Seq<char>, i: int) -> bool {
    &&& 0 <= i < s.len()
    &&& laws_shown::goes_by(s[i], "name"@, name)
    &&& forall|k: int| 0 <= k < i ==> !laws_shown::goes_by(#[trigger] s[k], "name"@, name)
}

/// To tag an issue is to ask for the tags, and to give the issue the first that goes by
/// the name; to untag it is to delete that tag from it.
pub proof fn law_issue_is_tagged(
    c: ClientView,
    id: String,
    tag: String,
    tags: JsonView,
    i: int,
    v: JsonView,
)
    requires
        tag_at(tags.items(), tag@, i),
        tags.items()[i].member("id"@) is Text,
    ensures
        ({
            let t = tags.items()[i].member("id"@)->Text_0;
            let query = seq![("fields"@, "id,name"@), ("$top"@, "500"@)];
            let a = session::begun(
                c,
                Cmd::Write(WriteCmd::Issue(WriteIssueCmd::Tag { id, tag })),
            );
            let b = session::begun(
                c,
                Cmd::Write(WriteCmd::Issue(WriteIssueCmd::Untag { id, tag })),
            );
            let tagged = laws_read::told(c, a.next, tags);
            let untagged = laws_read::told(c, b.next, tags);
            &&& a.lines.len() == 0 && b.lines.len() == 0
            &&& laws_read::asks(c, a.next, "tags"@, query)
            &&& laws_read::asks(c, b.next, "tags"@, query)
            &&& laws_read::posts(
                c,
                tagged.next,
                "issues/"@ + id@ + "/tags"@,
                Seq::empty(),
                JsonView::Object(map!["id"@ => JsonView::Text(t)]),
            )
            &&& laws_read::deletes(c, untagged.next, "issues/"@ + id@ + "/tags/"@ + t)
            &&& then_says(c, tagged.lines, tagged.next, v, "ok"@)
            &&& then_says(c, untagged.lines, untagged.next, v, "ok"@)
        }),
{
    let t = tags.items()[i].member("id"@)->Text_0;
    laws_read::lemma_query(("fields"@, "id,name"@), ("$top"@, "500"@), ("$top"@, "500"@));
    laws_shown::law_tags_are_found(tags, tag@, i);
    assert(fields::single("id"@, t)->Object_0 =~= map!["id"@ => JsonView::Text(t)]);
}

/// A tag that does not go by the name, or has no id, is not found.
pub proof fn law_unknown_tags_are_refused(
    c: ClientView,
    id: String,
    tag: String,
    tags: JsonView,
    i: int,
)
    requires
        tag_at(tags.items(), tag@, i) && !(tags.items()[i].member("id"@) is Text) || forall|k: int|
            0 <= k < tags.items().len() ==> !laws_shown::goes_by(
                #[trigger] tags.items()[k],
                "name"@,
                tag@,
            ),
    ensures
        ({
            let a = session::begun(
                c,
                Cmd::Write(WriteCmd::Issue(WriteIssueCmd::Tag { id, tag })),
            );
            let b = session::begun(
                c,
                Cmd::Write(WriteCmd::Issue(WriteIssueCmd::Untag { id, tag })),
            );
            let message = "tag not found: "@ + tag@;
            &&& laws_read::told(c, a.next, tags).next == NextView::Fail(message)
            &&& laws_read::told(c, b.next, tags).next == NextView::Fail(message)
        }),
{
    laws_shown::law_tags_are_found(tags, tag@, i);
}

// ---- projects ----

/// To create a project is to ask who is logged in, and to create it with that user as its
/// leader. Its short name and its id are printed.
pub proof fn law_project_is_created(
    c: ClientView,
    short: String,
    name: String,
    me: JsonView,
    v: JsonView,
)
    ensures
        ({
            let first = session::begun(
                c,
                Cmd::Write(WriteCmd::Project(WriteProjectCmd::Create { short, name })),
            );
            let step = laws_read::told(c, first.next, me);
            &&& first.lines.len() == 0
            &&& laws_read::asks(c, first.next, "users/me"@, seq![("fields"@, "id"@)])
            &&& match me.member("id"@) {
                JsonView::Text(leader) => laws_read::posts(
                    c,
                    step.next,
                    "admin/projects"@,
                    seq![("fields"@, "id,shortName"@)],
                    JsonView::Object(
                        map![
                            "name"@ => JsonView::Text(name@),
                            "shortName"@ => JsonView::Text(short@),
                            "leader"@ => JsonView::Object(map!["id"@ => JsonView::Text(leader)]),
                        ],
                    ),
                ) && then_says(
                    c,
                    step.lines,
                    step.next,
                    v,
                    laws_read::said(v, "shortName"@, short@) + "  "@ + laws_read::said(
                        v,
                        "id"@,
                        "?"@,
                    ),
                ),
                _ => step.next == NextView::Fail("could not resolve current user"@),
            }
        }),
{
    let a = ("fields"@, "id"@);
    let b = ("fields"@, "id,shortName"@);
    laws_read::lemma_query(a, a, a);
    laws_read::lemma_query(b, b, b);
    if let JsonView::Text(leader) = me.member("id"@) {
        assert(fields::single("id"@, leader)->Object_0 =~= map!["id"@ => JsonView::Text(leader)]);
        let o = session::with_member(
            session::with_text(
                session::with_text(session::empty_object(), "name"@, Some(name@)),
                "shortName"@,
                Some(short@),
            ),
            "leader"@,
            fields::single("id"@, leader),
        );
        assert(o->Object_0 =~= map![
            "name"@ => JsonView::Text(name@),
            "shortName"@ => JsonView::Text(short@),
            "leader"@ => JsonView::Object(map!["id"@ => JsonView::Text(leader)]),
        ]);
    }
}

// ---- files ----

/// The command that attaches files.
pub open spec fn attach(id: String, files: Vec<String>, comment: Option<String>) -> Cmd {
    Cmd::Write(WriteCmd::Issue(WriteIssueCmd::Attach { id, files, comment }))
}

/// Whether a request uploads the file `name` with the bytes `data`: they stand whole in its
/// body between a head, which names the file, and a tail, both marked by the boundary
/// that the request tells.
pub open spec fn uploads(
    c: ClientView,
    n: NextView,
    path: Seq<char>,
    name: Seq<char>,
    data: Seq<u8>,
) -> bool {
    n matches NextView::Send(r, _) && {
        &&& r.method == "POST"@
        &&& r.url == c.base + "/"@ + path
        &&& r.query == seq![("fields"@, "id,name"@)]
        &&& r.timeout is None
        &&& exists|mark: Seq<char>| #[trigger] uploads_by(c, r, mark, name, data)
    }
}

/// Whether a request uploads a file, with the boundary `mark`.
pub open spec fn uploads_by(
    c: ClientView,
    r: RequestView,
    mark: Seq<char>,
    name: Seq<char>,
    data: Seq<u8>,
) -> bool {
    &&& mark.len() > 0
    &&& r.headers == seq![
        ("Authorization"@, "Bearer "@ + c.token),
        ("Accept"@, "application/json"@),
        ("Content-Type"@, "multipart/form-data; boundary="@ + mark),
    ]
    &&& r.body == BodyView::Bytes(
        vstd::utf8::encode_utf8(
            "--"@ + mark + "\r\n"@ + "Content-Disposition: form-data; name=\"file\"; filename=\""@
                + name + "\"\r\n"@ + "Content-Type: "@ + client::type_by_name(name)
                + "\r\n\r\n"@,
        ) + data + vstd::utf8::encode_utf8("\r\n--"@ + mark + "--\r\n"@),
    )
}

proof fn lemma_uploads(c: ClientView, path: Seq<char>, name: Seq<char>, data: Seq<u8>, s: StageView)
    ensures
        uploads(
            c,
            NextView::Send(
                client::upload_request(c, path, name, data).ask("fields"@, "id,name"@),
                s,
            ),
            path,
            name,
            data,
        ),
{
    let mark = client::boundary_for(data.len() as usize);
    let q = ("fields"@, "id,name"@);
    laws_read::lemma_query(q, q, q);
    let r = client::upload_request(c, path, name, data).ask("fields"@, "id,name"@);
    reveal_strlit("----ytboundary");
    assert(r.headers =~= seq![
        ("Authorization"@, "Bearer "@ + c.token),
        ("Accept"@, "application/json"@),
        ("Content-Type"@, "multipart/form-data; boundary="@ + mark),
    ]);
    reveal_strlit("\r\n");
    reveal_strlit("\r\nContent-Disposition: form-data; name=\"file\"; filename=\"");
    reveal_strlit("Content-Disposition: form-data; name=\"file\"; filename=\"");
    reveal_strlit("\"\r\nContent-Type: ");
    reveal_strlit("\"\r\n");
    reveal_strlit("Content-Type: ");
    assert("\r\nContent-Disposition: form-data; name=\"file\"; filename=\""@ =~= "\r\n"@
        + "Content-Disposition: form-data; name=\"file\"; filename=\""@);
    assert("\"\r\nContent-Type: "@ =~= "\"\r\n"@ + "Content-Type: "@);
    assert(client::upload_head(mark, name) =~= "--"@ + mark + "\r\n"@
        + "Content-Disposition: form-data; name=\"file\"; filename=\""@ + name + "\"\r\n"@
        + "Content-Type: "@ + client::type_by_name(name) + "\r\n\r\n"@);
    assert(uploads_by(c, r, mark, name, data));
}

/// What comes back for files that are read and uploaded.
pub open spec fn sent(files: Seq<FileRead>, replies: Seq<JsonView>) -> Seq<Answer>
    decreases files.len(),
{
    if files.len() == 0 {
        Seq::empty()
    } else {
        sent(files.drop_last(), replies).push(Answer::File(files.last())).push(
            Answer::Reply(Ok(replies[files.len() - 1]), false),
        )
    }
}

proof fn lemma_sent(
    c: ClientView,
    path: Seq<char>,
    names: Seq<Seq<char>>,
    files: Seq<FileRead>,
    replies: Seq<JsonView>,
)
    requires
        files.len() <= names.len(),
        forall|k: int| 0 <= k < files.len() ==> #[trigger] files[k] is Read,
    ensures
        session::after(c, session::upload_next(path, names), sent(files, replies))
            == session::upload_next(path, names.skip(files.len() as int)),
    decreases files.len(),
{
    let n = session::upload_next(path, names);
    let r = sent(files, replies);
    if files.len() == 0 {
        assert(names.skip(0) =~= names);
    } else {
        let before = files.drop_last();
        assert forall|k: int| 0 <= k < before.len() implies #[trigger] before[k] is Read by {
            assert(before[k] == files[k]);
        }
        lemma_sent(c, path, names, before, replies);
        assert(files[files.len() - 1] is Read);
        let a = sent(before, replies);
        let b = a.push(Answer::File(files.last()));
        assert(r.drop_last() =~= b);
        assert(b.drop_last() =~= a);
        let left = names.skip(before.len() as int);
        assert(left.drop_first() =~= names.skip(files.len() as int));
        assert(session::after(c, n, b) == session::followed(
            c,
            session::after(c, n, a),
            Answer::File(files.last()),
        ).next);
        assert(session::after(c, n, r) == session::followed(
            c,
            session::after(c, n, b),
            r.last(),
        ).next);
    }
}

/// To attach files to an issue, or to a comment on it, is to read each, in order, and to
/// upload it under its name with all that it holds; its id and name are printed. Nothing
/// is left behind the last. A file that has no name or cannot be read ends the command.
pub proof fn law_files_are_attached(
    c: ClientView,
    id: String,
    files: Vec<String>,
    comment: Option<String>,
    read: Seq<FileRead>,
    replies: Seq<JsonView>,
    name: String,
    data: Vec<u8>,
    e: String,
    v: JsonView,
)
    requires
        read.len() <= files@.len(),
        forall|k: int| 0 <= k < read.len() ==> #[trigger] read[k] is Read,
    ensures
        ({
            let k = read.len() as int;
            let first = session::begun(c, attach(id, files, comment));
            let n = session::after(c, first.next, sent(read, replies));
            let path = match comment {
                Some(cid) => "issues/"@ + id@ + "/comments/"@ + cid@ + "/attachments"@,
                None => "issues/"@ + id@ + "/attachments"@,
            };
            &&& first.lines.len() == 0
            &&& k == files@.len() ==> n == NextView::Done(true)
            &&& k < files@.len() ==> (n matches NextView::ReadFile(u) && {
                let step = session::followed(c, n, Answer::File(FileRead::Read(name, data)));
                let told = laws_read::told(c, step.next, v);
                &&& u.file == files@[k]@
                &&& step.lines.len() == 0
                &&& uploads(c, step.next, path, name@, data@)
                &&& told.lines == seq![
                    LineView::Plain(
                        laws_read::said(v, "id"@, "?"@) + "  "@ + laws_read::said(
                            v,
                            "name"@,
                            "?"@,
                        ),
                    ),
                ]
                &&& session::followed(c, n, Answer::File(FileRead::Unnamed)).next
                    == NextView::Fail("bad file name: "@ + files@[k]@)
                &&& session::followed(c, n, Answer::File(FileRead::Unreadable(e))).next
                    == NextView::Fail("cannot read "@ + files@[k]@ + ": "@ + e@)
            })
        }),
{
    let path = session::attach_path(id@, text::opt_text(comment));
    let names = text::texts(files@);
    let k = read.len() as int;
    lemma_sent(c, path, names, read, replies);
    if k < files@.len() {
        let rest = names.skip(k);
        assert(rest[0] == files@[k]@);
        lemma_uploads(
            c,
            path,
            name@,
            data@,
            StageView::Uploaded { path, rest: rest.drop_first() },
        );
    }
}

/// Whatever file is awaited, what was read of it is uploaded whole.
pub proof fn law_file_is_uploaded_whole(
    c: ClientView,
    awaited: UploadsView,
    name: String,
    data: Vec<u8>,
)
    ensures
        uploads(
            c,
            session::followed(
                c,
                NextView::ReadFile(awaited),
                Answer::File(FileRead::Read(name, data)),
            ).next,
            awaited.path,
            name@,
            data@,
        ),
{
    lemma_uploads(
        c,
        awaited.path,
        name@,
        data@,
        StageView::Uploaded { path: awaited.path, rest: awaited.rest },
    );
}

} // verus!
