//! What is printed of comments, tags, projects, users and attachments.

use vstd::prelude::*;
use crate::client::{BodyView, ClientView, RequestView};
use crate::client;
use crate::command::{Cmd, ReadCmd, ReadIssueCmd, ReadProjectCmd, ReadUserCmd};
use crate::date;
use crate::fields;
use crate::json::JsonView;
use crate::laws_issue;
use crate::laws_read;
use crate::laws_shown;
use crate::line::LineView;
use crate::line;
use crate::lookup;
use crate::number;
use crate::report;
use crate::session::{Answer, NextView};
use crate::session;
use crate::sorted;
use crate::text;

verus! {

// ---- comments ----

/// Whether `lines` are those of the comments `s`: when and by whom each was written, and
/// its text, white space at its end aside; a word where there is none.
pub open spec fn prints_comments(lines: Seq<LineView>, s: Seq<JsonView>) -> bool {
    if s.len() == 0 {
        lines == seq![LineView::Plain("no comments"@)]
    } else {
        &&& lines.len() == s.len()
        &&& forall|k: int|
            0 <= k < s.len() ==> lines[k] == LineView::Plain(
                "["@ + date::shown_date((#[trigger] s[k]).member("created"@)) + " "@
                    + laws_read::said(s[k].member("author"@), "login"@, "?"@) + "] "@
                    + text::trimmed_end(laws_read::said(s[k], "text"@, ""@)),
            )
    }
}

proof fn lemma_comments(v: JsonView)
    ensures
        prints_comments(report::comment_lines(v), v.items()),
{
    let f = |c: JsonView| report::comment_line(c);
    let g = |c: JsonView| report::comment_line(c)[0];
    assert forall|v: JsonView| #[trigger] f(v) == seq![g(v)] by {
        assert(f(v) =~= seq![g(v)]);
    }
    laws_read::lemma_spread_single(v.items(), f, g);
}

/// To list the comments on an issue is to ask for them and to print each, in order.
pub proof fn law_comments_are_listed(c: ClientView, id: String, v: JsonView)
    ensures
        ({
            let first = session::begun(c, Cmd::Read(ReadCmd::Issue(ReadIssueCmd::Comments { id })));
            let last = laws_read::told(c, first.next, v);
            &&& first.lines.len() == 0
            &&& laws_read::asks(
                c,
                first.next,
                "issues/"@ + id@ + "/comments"@,
                seq![("fields"@, "created,text,author(login)"@)],
            )
            &&& prints_comments(last.lines, v.items())
            &&& last.next == NextView::Done(true)
        }),
{
    let d = ("fields"@, "created,text,author(login)"@);
    laws_read::lemma_query(d, d, d);
    lemma_comments(v);
}

/// The comments on an issue that is shown are printed where they are wanted, behind its
/// links or its pull requests.
pub proof fn law_comments_of_an_issue_are_shown(
    c: ClientView,
    id: String,
    v: JsonView,
    links: JsonView,
    activities: JsonView,
    comments: JsonView,
)
    ensures
        ({
            let a = session::begun(c, laws_issue::show(id, true, false));
            let b = laws_read::told(c, laws_read::told(c, a.next, v).next, links);
            let last = laws_read::told(c, b.next, comments);
            prints_comments(last.lines, comments.items()) && last.next == NextView::Done(true)
        }),
        ({
            let a = session::begun(c, laws_issue::show(id, true, true));
            let b = laws_read::told(c, laws_read::told(c, a.next, v).next, links);
            let last = laws_read::told(c, laws_read::told(c, b.next, activities).next, comments);
            prints_comments(last.lines, comments.items()) && last.next == NextView::Done(true)
        }),
{
    lemma_comments(comments);
}

// ---- tags, projects, users ----

/// To list the tags is to ask for them and to print the name of each, in order; that there
/// is none is said where there is none.
pub proof fn law_tags_are_listed(c: ClientView, v: JsonView)
    ensures
        ({
            let first = session::begun(c, Cmd::Read(ReadCmd::Issue(ReadIssueCmd::Tags)));
            let last = laws_read::told(c, first.next, v);
            let s = v.items();
            &&& first.lines.len() == 0
            &&& laws_read::asks(
                c,
                first.next,
                "tags"@,
                seq![("fields"@, "id,name"@), ("$top"@, "500"@)],
            )
            &&& s.len() == 0 ==> last.lines == seq![LineView::Plain("no tags"@)]
            &&& s.len() > 0 ==> last.lines.len() == s.len()
            &&& forall|k: int|
                0 <= k < s.len() ==> last.lines[k] == LineView::Plain(
                    laws_read::said(#[trigger] s[k], "name"@, "?"@),
                )
            &&& last.next == NextView::Done(true)
        }),
{
    laws_read::lemma_query(("fields"@, "id,name"@), ("$top"@, "500"@), ("$top"@, "500"@));
    let f = |t: JsonView| line::only(t.text_or("name"@, "?"@));
    let g = |t: JsonView| LineView::Plain(t.text_or("name"@, "?"@));
    laws_read::lemma_spread_single(v.items(), f, g);
}

/// The projects `s` that are not archived.
pub open spec fn open_projects(s: Seq<JsonView>) -> Seq<JsonView> {
    s.filter(|p: JsonView| p.member("archived"@) != JsonView::Bool(true))
}

proof fn lemma_projects(s: Seq<JsonView>)
    ensures
        report::spread(s, |p: JsonView| report::project_line(p)) == open_projects(s).map_values(
            |p: JsonView|
                LineView::Plain(
                    laws_read::said(p, "shortName"@, "?"@) + "  "@ + laws_read::said(
                        p,
                        "name"@,
                        ""@,
                    ),
                ),
        ),
    decreases s.len(),
{
    reveal(Seq::filter);
    let f = |p: JsonView| report::project_line(p);
    let g = |p: JsonView|
        LineView::Plain(
            laws_read::said(p, "shortName"@, "?"@) + "  "@ + laws_read::said(p, "name"@, ""@),
        );
    if s.len() > 0 {
        lemma_projects(s.drop_last());
        assert(f(s.last()) == report::project_line(s.last()));
        if s.last().member("archived"@) != JsonView::Bool(true) {
            assert(f(s.last()) =~= seq![g(s.last())]);
        } else {
            assert(f(s.last()) =~= Seq::empty());
        }
    }
    assert(report::spread(s, f) =~= open_projects(s).map_values(g));
}

/// To list the projects is to ask for them and to print the short name and the name of
/// each that is not archived, in order.
pub proof fn law_projects_are_listed(c: ClientView, v: JsonView)
    ensures
        ({
            let first = session::begun(c, Cmd::Read(ReadCmd::Project(ReadProjectCmd::Ls)));
            let last = laws_read::told(c, first.next, v);
            let s = open_projects(v.items());
            &&& first.lines.len() == 0
            &&& laws_read::asks(
                c,
                first.next,
                "admin/projects"@,
                seq![("fields"@, "shortName,name,archived"@), ("$top"@, "500"@)],
            )
            &&& last.lines.len() == s.len()
            &&& forall|k: int|
                0 <= k < s.len() ==> last.lines[k] == LineView::Plain(
                    laws_read::said(#[trigger] s[k], "shortName"@, "?"@) + "  "@ + laws_read::said(
                        s[k],
                        "name"@,
                        ""@,
                    ),
                )
            &&& last.next == NextView::Done(true)
        }),
{
    let a = ("fields"@, "shortName,name,archived"@);
    laws_read::lemma_query(a, ("$top"@, "500"@), a);
    lemma_projects(v.items());
}

/// To list users is to ask for those that the query finds and to print the login and the
/// name of each, in order; that there is none is said where there is none.
pub proof fn law_users_are_listed(c: ClientView, query: String, v: JsonView)
    ensures
        ({
            let first = session::begun(c, Cmd::Read(ReadCmd::User(ReadUserCmd::Ls { query })));
            let last = laws_read::told(c, first.next, v);
            let s = v.items();
            &&& first.lines.len() == 0
            &&& laws_read::asks(
                c,
                first.next,
                "users"@,
                seq![("query"@, query@), ("fields"@, "login,name"@), ("$top"@, "10"@)],
            )
            &&& s.len() == 0 ==> last.lines == seq![LineView::Plain("no matches"@)]
            &&& s.len() > 0 ==> last.lines.len() == s.len()
            &&& forall|k: int|
                0 <= k < s.len() ==> last.lines[k] == LineView::Plain(
                    laws_read::said(#[trigger] s[k], "login"@, "?"@) + "  "@ + laws_read::said(
                        s[k],
                        "name"@,
                        ""@,
                    ),
                )
            &&& last.next == NextView::Done(true)
        }),
{
    laws_read::lemma_query(("query"@, query@), ("fields"@, "login,name"@), ("$top"@, "10"@));
    let f = |u: JsonView| line::only(report::two_members(u, "login"@, "name"@, ""@));
    let g = |u: JsonView| LineView::Plain(report::two_members(u, "login"@, "name"@, ""@));
    laws_read::lemma_spread_single(v.items(), f, g);
}

/// To show who is logged in is to ask for that user and to print the login, the name and
/// the mail address.
pub proof fn law_user_is_shown(c: ClientView, v: JsonView)
    ensures
        ({
            let first = session::begun(c, Cmd::Read(ReadCmd::User(ReadUserCmd::Me)));
            let last = laws_read::told(c, first.next, v);
            &&& first.lines.len() == 0
            &&& laws_read::asks(
                c,
                first.next,
                "users/me"@,
                seq![("fields"@, "login,name,email"@)],
            )
            &&& last.lines == seq![
                LineView::Plain(
                    laws_read::said(v, "login"@, "?"@) + "  "@ + laws_read::said(v, "name"@, ""@)
                        + "  "@ + laws_read::said(v, "email"@, ""@),
                ),
            ]
            &&& last.next == NextView::Done(true)
        }),
{
    let d = ("fields"@, "login,name,email"@);
    laws_read::lemma_query(d, d, d);
}

// ---- attachments ----

/// The command about the attachments of an issue.
pub open spec fn attachments(id: String, out: Option<Option<String>>) -> Cmd {
    Cmd::Read(ReadCmd::Issue(ReadIssueCmd::Attachments { id, out }))
}

/// To look at the attachments of an issue is to ask for them. Where there is none, that is
/// said and no notice is due; where no directory is asked for, the name and the size of
/// each are printed, in order; else the directory is made, the current one where none is
/// named.
pub proof fn law_attachments_are_listed(
    c: ClientView,
    id: String,
    out: Option<Option<String>>,
    v: JsonView,
)
    ensures
        ({
            let first = session::begun(c, attachments(id, out));
            let step = laws_read::told(c, first.next, v);
            let s = v.items();
            &&& first.lines.len() == 0
            &&& laws_read::asks(
                c,
                first.next,
                "issues/"@ + id@ + "/attachments"@,
                seq![("fields"@, "id,name,size,url"@)],
            )
            &&& s.len() == 0 ==> step.lines == seq![LineView::Plain("no attachments"@)] && step.next
                == NextView::Done(false)
            &&& s.len() > 0 && out is None ==> step.lines.len() == s.len() && step.next
                == NextView::Done(true)
            &&& out is None ==> forall|k: int|
                0 <= k < s.len() ==> step.lines[k] == LineView::Plain(
                    laws_read::said(#[trigger] s[k], "name"@, "?"@) + "  "@ + (match s[k].member(
                        "size"@,
                    ) {
                        JsonView::Integer(i) => if i64::MIN <= i <= i64::MAX {
                            number::signed(i)
                        } else {
                            number::signed(0)
                        },
                        _ => number::signed(0),
                    }),
                )
            &&& s.len() > 0 && out is Some ==> step.lines.len() == 0 && (step.next
                matches NextView::MakeDir(d) && d.dir == match out {
                Some(Some(dir)) => dir@,
                _ => "."@,
            })
        }),
{
    let d = ("fields"@, "id,name,size,url"@);
    laws_read::lemma_query(d, d, d);
    let f = |a: JsonView|
        line::only(a.text_or("name"@, "?"@) + "  "@ + number::signed(report::size_of(a)));
    let g = |a: JsonView|
        LineView::Plain(a.text_or("name"@, "?"@) + "  "@ + number::signed(report::size_of(a)));
    laws_read::lemma_spread_single(v.items(), f, g);
}

/// What comes back for the downloads of the files that hold `bytes`, each kept at its path.
pub open spec fn rounds(bytes: Seq<Seq<u8>>, paths: Seq<Seq<char>>) -> Seq<Answer>
    decreases bytes.len(),
{
    if bytes.len() == 0 {
        seq![Answer::Made]
    } else {
        rounds(bytes.drop_last(), paths).push(Answer::Brought(Ok(bytes.last()))).push(
            Answer::Saved(paths[bytes.len() - 1], bytes.last().len()),
        )
    }
}

proof fn lemma_rounds(
    c: ClientView,
    dir: Seq<char>,
    s: Seq<JsonView>,
    bytes: Seq<Seq<u8>>,
    paths: Seq<Seq<char>>,
)
    requires
        bytes.len() <= s.len(),
        forall|k: int| 0 <= k < s.len() ==> (#[trigger] s[k]).member("url"@) is Text,
    ensures
        session::after(
            c,
            NextView::MakeDir((session::DownloadsView { dir, list: s })),
            rounds(bytes, paths),
        ) == session::download_next(
            c,
            (session::DownloadsView { dir, list: s.skip(bytes.len() as int) }),
        ),
    decreases bytes.len(),
{
    let n = NextView::MakeDir(session::DownloadsView { dir, list: s });
    let r = rounds(bytes, paths);
    if bytes.len() == 0 {
        assert(s.skip(0) =~= s);
        assert(r.drop_last().len() == 0);
        assert(session::after(c, n, r.drop_last()) == n);
        assert(r.last() == Answer::Made);
    } else {
        let before = bytes.drop_last();
        lemma_rounds(c, dir, s, before, paths);
        let a = rounds(before, paths);
        let b = a.push(Answer::Brought(Ok(bytes.last())));
        assert(r.drop_last() =~= b);
        assert(b.drop_last() =~= a);
        let left = s.skip(before.len() as int);
        assert(left[0] == s[before.len() as int]);
        assert(left.drop_first() =~= s.skip(bytes.len() as int));
        assert(session::after(c, n, b) == session::followed(
            c,
            session::after(c, n, a),
            Answer::Brought(Ok(bytes.last())),
        ).next);
        assert(session::after(c, n, r) == session::followed(
            c,
            session::after(c, n, b),
            r.last(),
        ).next);
    }
}

/// To download attachments is to fetch each from where the server says it is, in order, to
/// keep what came under its name in the directory, and to print where it is and how long;
/// nothing is left behind the last.
pub proof fn law_attachments_are_downloaded(
    c: ClientView,
    id: String,
    out: Option<String>,
    v: JsonView,
    bytes: Seq<Seq<u8>>,
    paths: Seq<Seq<char>>,
    data: Seq<u8>,
    path: Seq<char>,
    size: nat,
)
    requires
        v.items().len() > 0,
        bytes.len() <= v.items().len(),
        forall|k: int| 0 <= k < v.items().len() ==> (#[trigger] v.items()[k]).member("url"@) is Text,
    ensures
        ({
            let s = v.items();
            let k = bytes.len() as int;
            let made = laws_read::told(c, session::begun(c, attachments(id, Some(out))).next, v);
            let n = session::after(c, made.next, rounds(bytes, paths));
            &&& k == s.len() ==> n == NextView::Done(true)
            &&& k < s.len() ==> (n matches NextView::Fetch(r, name, d) && {
                let brought = session::followed(c, n, Answer::Brought(Ok(data)));
                &&& r == (RequestView {
                    method: "GET"@,
                    url: client::origin_of(c.base) + s[k].member("url"@)->Text_0,
                    headers: seq![("Authorization"@, "Bearer "@ + c.token)],
                    query: Seq::empty(),
                    body: BodyView::Empty,
                    timeout: None,
                })
                &&& brought.lines.len() == 0
                &&& (brought.next matches NextView::Save(kept, b, e) && {
                    let saved = session::followed(c, brought.next, Answer::Saved(path, size));
                    &&& kept == laws_read::said(s[k], "name"@, "attachment"@)
                    &&& b == data
                    &&& e.dir == match out {
                        Some(dir) => dir@,
                        None => "."@,
                    }
                    &&& saved.lines == seq![LineView::Plain(path + "  "@ + number::decimal(size))]
                })
            })
        }),
{
    let dir = match out {
        Some(dir) => dir@,
        None => "."@,
    };
    lemma_rounds(c, dir, v.items(), bytes, paths);
}

/// An attachment that the server says no place of ends the command with its name.
pub proof fn law_attachments_need_a_place(
    c: ClientView,
    id: String,
    out: Option<String>,
    v: JsonView,
)
    requires
        v.items().len() > 0,
        !(v.items()[0].member("url"@) is Text),
    ensures
        session::followed(
            c,
            laws_read::told(c, session::begun(c, attachments(id, Some(out))).next, v).next,
            Answer::Made,
        ).next == NextView::Fail(
            "attachment '"@ + laws_read::said(v.items()[0], "name"@, "attachment"@) + "' has no url"@,
        ),
{
}

// ---- fields of a project ----

/// The names of the values `s` that are not archived.
pub open spec fn open_names(s: Seq<JsonView>) -> Seq<Seq<char>> {
    s.filter(
        |v: JsonView| v.member("archived"@) != JsonView::Bool(true) && v.member("name"@) is Text,
    ).map_values(|v: JsonView| v.member("name"@)->Text_0)
}

proof fn lemma_names(s: Seq<JsonView>)
    ensures
        report::value_names(s) == open_names(s),
    decreases s.len(),
{
    reveal(Seq::filter);
    if s.len() > 0 {
        lemma_names(s.drop_last());
    }
    assert(report::value_names(s) =~= open_names(s));
}

/// Whether a project goes by `key`.
pub open spec fn project_is(p: JsonView, key: Seq<char>) -> bool {
    laws_shown::goes_by(p, "shortName"@, key) || laws_shown::goes_by(p, "name"@, key)
}

/// Whether the first of the projects `s` that goes by `key` is the one at `i`.
pub open spec fn project_at(s: Seq<JsonView>, key: Seq<char>, i: int) -> bool {
    &&& 0 <= i < s.len()
    &&& project_is(s[i], key)
    &&& forall|k: int| 0 <= k < i ==> !project_is(#[trigger] s[k], key)
}

/// The project that is found is the first that goes by its name.
pub proof fn lemma_project_at(projects: JsonView, key: Seq<char>, i: int)
    ensures
        project_at(projects.items(), key, i) ==> lookup::project_found(projects, key) == Ok::<
            (Seq<char>, Seq<char>),
            Seq<char>,
        >(
            (
                laws_read::said(projects.items()[i], "id"@, ""@),
                laws_read::said(projects.items()[i], "shortName"@, key),
            ),
        ),
        (forall|k: int|
            0 <= k < projects.items().len() ==> !project_is(#[trigger] projects.items()[k], key))
            ==> lookup::project_found(projects, key) == Err::<(Seq<char>, Seq<char>), Seq<char>>(
            "project not found: "@ + key,
        ),
{
    laws_shown::law_projects_are_found(projects, key, i);
}

/// The command about the fields of a project.
pub open spec fn fields_of(project: String) -> Cmd {
    Cmd::Read(ReadCmd::Project(ReadProjectCmd::Fields { project }))
}

/// To show the fields of a project is to find the project, to ask for its fields, and to
/// print each: its name, marked where it is required, its type and the values it allows.
pub proof fn law_fields_are_shown(
    c: ClientView,
    project: String,
    projects: JsonView,
    i: int,
    v: JsonView,
)
    requires
        project_at(projects.items(), project@, i),
        v.items().len() > 0,
    ensures
        ({
            let first = session::begun(c, fields_of(project));
            let found = laws_read::told(c, first.next, projects);
            let last = laws_read::told(c, found.next, v);
            let p = projects.items()[i];
            let s = v.items();
            &&& first.lines.len() == 0
            &&& found.lines.len() == 0
            &&& laws_read::asks(
                c,
                first.next,
                "admin/projects"@,
                seq![("fields"@, "id,shortName,name"@), ("$top"@, "500"@)],
            )
            &&& laws_read::asks(
                c,
                found.next,
                "admin/projects/"@ + laws_read::said(p, "id"@, ""@) + "/customFields"@,
                seq![
                    (
                        "fields"@,
                        "canBeEmpty,field(name,fieldType(valueType)),bundle(values(name,archived))"@,
                    ),
                    ("$top"@, "100"@),
                ],
            )
            &&& last.lines.len() == s.len() + 1
            &&& last.lines[0] == LineView::Plain(
                "# "@ + laws_read::said(p, "shortName"@, project@) + ": * = required"@,
            )
            &&& forall|k: int| 0 <= k < s.len() ==> is_field(last.lines[1 + k], #[trigger] s[k])
            &&& last.next == NextView::Done(true)
        }),
{
    let a = ("$top"@, "500"@);
    let b = ("$top"@, "100"@);
    laws_read::lemma_query(("fields"@, "id,shortName,name"@), a, a);
    laws_read::lemma_query(
        (
            "fields"@,
            "canBeEmpty,field(name,fieldType(valueType)),bundle(values(name,archived))"@,
        ),
        b,
        b,
    );
    lemma_project_at(projects, project@, i);
    let s = v.items();
    let f = |x: JsonView| report::field_line(x);
    let g = |x: JsonView| report::field_line(x)[0];
    assert forall|x: JsonView| #[trigger] f(x) == seq![g(x)] by {
        assert(f(x) =~= seq![g(x)]);
    }
    laws_read::lemma_spread_single(s, f, g);
    let found = laws_read::told(c, session::begun(c, fields_of(project)).next, projects);
    let last = laws_read::told(c, found.next, v);
    assert forall|k: int| 0 <= k < s.len() implies is_field(last.lines[1 + k], #[trigger] s[k]) by {
        lemma_names(s[k].member("bundle"@).member("values"@).items());
        assert(last.lines[1 + k] == g(s[k]));
        reveal_strlit("");
        let name = laws_read::said(s[k].member("field"@), "name"@, "?"@);
        assert(name + ""@ =~= name);
    }
}

/// Whether a line is that of a field of a project.
pub open spec fn is_field(l: LineView, f: JsonView) -> bool {
    let name = laws_read::said(f.member("field"@), "name"@, "?"@);
    let marked = if f.member("canBeEmpty"@) == JsonView::Bool(false) {
        name + "*"@
    } else {
        name
    };
    let head = marked + " ("@ + laws_read::said(
        f.member("field"@).member("fieldType"@),
        "valueType"@,
        "?"@,
    ) + ")"@;
    let names = open_names(f.member("bundle"@).member("values"@).items());
    l == LineView::Plain(
        if names.len() > 0 {
            head + ": "@ + text::joined(names, ", "@)
        } else {
            head
        },
    )
}

/// A project that no one has is not found.
pub proof fn law_fields_need_a_project(c: ClientView, project: String, projects: JsonView)
    requires
        forall|k: int|
            0 <= k < projects.items().len() ==> !project_is(
                #[trigger] projects.items()[k],
                project@,
            ),
    ensures
        laws_read::told(c, session::begun(c, fields_of(project)).next, projects).next
            == NextView::Fail("project not found: "@ + project@),
{
    lemma_project_at(projects, project@, 0);
}

/// The custom fields of an issue that is told.
pub open spec fn fields_at(issues: JsonView, i: int) -> Seq<JsonView> {
    issues.items()[i].member("customFields"@).items()
}

/// Whether a field has the name `name` and a value that is shown as `value`.
pub open spec fn has_pair(f: JsonView, name: Seq<char>, value: Seq<char>) -> bool {
    f.member("name"@) == JsonView::Text(name) && fields::shown(f.member("value"@)) == Some(value)
}

/// Whether some issue told has a field `name` with the value `value`.
pub open spec fn seen(issues: JsonView, name: Seq<char>, value: Seq<char>) -> bool {
    exists|i: int, j: int|
        0 <= i < issues.items().len() && 0 <= j < fields_at(issues, i).len() && has_pair(
            #[trigger] fields_at(issues, i)[j],
            name,
            value,
        )
}

proof fn lemma_pairs(s: Seq<JsonView>, name: Seq<char>, value: Seq<char>)
    ensures
        report::values_seen(s, name).contains(value) <==> exists|n: int|
            0 <= n < s.len() && has_pair(#[trigger] s[n], name, value),
        report::values_seen(s, name).finite(),
    decreases s.len(),
{
    if s.len() > 0 {
        let d = s.drop_last();
        lemma_pairs(d, name, value);
        if exists|n: int| 0 <= n < s.len() && has_pair(#[trigger] s[n], name, value) {
            let n = choose|n: int| 0 <= n < s.len() && has_pair(#[trigger] s[n], name, value);
            if n < d.len() {
                assert(has_pair(d[n], name, value));
            }
        }
        if report::values_seen(s, name).contains(value) {
            if report::values_seen(d, name).contains(value) {
                let n = choose|n: int| 0 <= n < d.len() && has_pair(#[trigger] d[n], name, value);
                assert(has_pair(s[n], name, value));
            } else {
                assert(has_pair(s[s.len() - 1], name, value));
            }
        }
    }
}

proof fn lemma_named(s: Seq<JsonView>, name: Seq<char>)
    ensures
        report::names_seen(s).contains(name) <==> exists|value: Seq<char>|
            report::values_seen(s, name).contains(value),
        report::names_seen(s).finite(),
    decreases s.len(),
{
    if s.len() > 0 {
        let d = s.drop_last();
        lemma_named(d, name);
        let f = s.last();
        if report::names_seen(s).contains(name) {
            if report::names_seen(d).contains(name) {
                let value = choose|value: Seq<char>| report::values_seen(d, name).contains(value);
                assert(report::values_seen(s, name).contains(value));
            } else {
                let value = fields::shown(f.member("value"@))->Some_0;
                assert(report::values_seen(s, name).contains(value));
            }
        }
        if exists|value: Seq<char>| report::values_seen(s, name).contains(value) {
            let value = choose|value: Seq<char>| report::values_seen(s, name).contains(value);
            if report::values_seen(d, name).contains(value) {
                assert(report::names_seen(d).contains(name));
            }
        }
    }
}

proof fn lemma_all_fields(s: Seq<JsonView>, i: int, j: int)
    requires
        0 <= i < s.len(),
        0 <= j < s[i].member("customFields"@).items().len(),
    ensures
        fields::all_fields(s).contains(s[i].member("customFields"@).items()[j]),
    decreases s.len(),
{
    let d = s.drop_last();
    let x = s[i].member("customFields"@).items()[j];
    let head = fields::all_fields(d);
    if i < d.len() {
        lemma_all_fields(d, i, j);
        let n = choose|n: int| 0 <= n < head.len() && head[n] == x;
        assert(fields::all_fields(s)[n] == x);
    } else {
        assert(fields::all_fields(s)[head.len() + j] == x);
    }
}

proof fn lemma_field_from(s: Seq<JsonView>, n: int) -> (r: (int, int))
    requires
        0 <= n < fields::all_fields(s).len(),
    ensures
        0 <= r.0 < s.len(),
        0 <= r.1 < s[r.0].member("customFields"@).items().len(),
        fields::all_fields(s)[n] == s[r.0].member("customFields"@).items()[r.1],
    decreases s.len(),
{
    let d = s.drop_last();
    let head = fields::all_fields(d);
    if n < head.len() {
        lemma_field_from(d, n)
    } else {
        (s.len() - 1, n - head.len())
    }
}

proof fn lemma_seen(issues: JsonView, name: Seq<char>, value: Seq<char>)
    ensures
        report::values_seen(fields::all_fields(issues.items()), name).contains(value) <==> seen(
            issues,
            name,
            value,
        ),
{
    let s = issues.items();
    let all = fields::all_fields(s);
    lemma_pairs(all, name, value);
    if seen(issues, name, value) {
        let (i, j) = choose|i: int, j: int|
            0 <= i < issues.items().len() && 0 <= j < fields_at(issues, i).len() && has_pair(
                #[trigger] fields_at(issues, i)[j],
                name,
                value,
            );
        lemma_all_fields(s, i, j);
        let n = choose|n: int| 0 <= n < all.len() && all[n] == fields_at(issues, i)[j];
        assert(has_pair(all[n], name, value));
    }
    if exists|n: int| 0 <= n < all.len() && has_pair(#[trigger] all[n], name, value) {
        let n = choose|n: int| 0 <= n < all.len() && has_pair(#[trigger] all[n], name, value);
        let r = lemma_field_from(s, n);
        assert(has_pair(fields_at(issues, r.0)[r.1], name, value));
    }
}

/// Whether `names` are all those that the issues told have fields with a value of, in
/// order.
pub open spec fn all_names(names: Seq<Seq<char>>, issues: JsonView) -> bool {
    &&& sorted::ascending(names)
    &&& forall|n: Seq<char>|
        #[trigger] names.contains(n) <==> exists|value: Seq<char>| seen(issues, n, value)
}

/// Whether `values` are all those that the field `name` has on the issues told, in order.
pub open spec fn all_values(values: Seq<Seq<char>>, issues: JsonView, name: Seq<char>) -> bool {
    &&& sorted::ascending(values)
    &&& forall|t: Seq<char>| #[trigger] values.contains(t) <==> seen(issues, name, t)
}

/// Whether a line is that of a field `name` and the values it has on the issues told.
pub open spec fn is_seen(l: LineView, issues: JsonView, name: Seq<char>) -> bool {
    exists|values: Seq<Seq<char>>| #[trigger]
        all_values(values, issues, name) && l == LineView::Plain(
            name + ": "@ + text::joined(values, ", "@),
        )
}

/// Where no field of a project is listed, or the token has not the rights to read how they
/// are configured, some issues of the project are asked for, and of each field that has a
/// value on one of them its name and all such values are printed, in order and each once.
/// Where there is none, or where the fields cannot be read for another reason, the
/// command fails.
pub proof fn law_seen_fields_are_shown(
    c: ClientView,
    project: String,
    projects: JsonView,
    i: int,
    listed: JsonView,
    e: Seq<char>,
    issues: JsonView,
    names: Seq<Seq<char>>,
)
    requires
        project_at(projects.items(), project@, i),
        listed.items().len() == 0,
        all_names(names, issues),
    ensures
        ({
            let found = laws_read::told(c, session::begun(c, fields_of(project)).next, projects);
            let unlisted = laws_read::told(c, found.next, listed);
            let forbidden = session::followed(c, found.next, Answer::Reply(Err(e), true));
            let broken = session::followed(c, found.next, Answer::Reply(Err(e), false));
            let last = laws_read::told(c, unlisted.next, issues);
            let short = laws_read::said(projects.items()[i], "shortName"@, project@);
            &&& unlisted.lines.len() == 0
            &&& forbidden == unlisted
            &&& broken.next == NextView::Fail(e)
            &&& laws_read::asks(
                c,
                unlisted.next,
                "issues"@,
                seq![
                    ("query"@, "project: "@ + short),
                    ("fields"@, "customFields(name,value(name,login,text))"@),
                    ("$top"@, "100"@),
                ],
            )
            &&& names.len() == 0 ==> last.next == NextView::Fail(
                "no field info available for "@ + short
                    + " (no admin access, no issues to sample)"@,
            )
            &&& names.len() > 0 ==> {
                &&& last.lines.len() == names.len() + 1
                &&& last.lines[0] == LineView::Plain(
                    "# "@ + short
                        + ": values observed on recent issues (field config not readable with this token)"@,
                )
                &&& forall|k: int|
                    0 <= k < names.len() ==> is_seen(last.lines[1 + k], issues, #[trigger] names[k])
                &&& last.next == NextView::Done(false)
            }
        }),
{
    let short = laws_read::said(projects.items()[i], "shortName"@, project@);
    laws_read::lemma_query(
        ("query"@, "project: "@ + short),
        ("fields"@, "customFields(name,value(name,login,text))"@),
        ("$top"@, "100"@),
    );
    lemma_project_at(projects, project@, i);
    let all = fields::all_fields(issues.items());
    let set = report::names_seen(all);
    assert forall|n: Seq<char>| set.contains(n) <==> #[trigger] names.contains(n) by {
        lemma_named(all, n);
        if set.contains(n) {
            let t = choose|value: Seq<char>| report::values_seen(all, n).contains(value);
            lemma_seen(issues, n, t);
            assert(seen(issues, n, t));
        }
        if names.contains(n) {
            let t = choose|value: Seq<char>| seen(issues, n, value);
            lemma_seen(issues, n, t);
            assert(report::values_seen(all, n).contains(t));
        }
    }
    assert(sorted::lists(names, set));
    sorted::lemma_in_order(names, set);
    if names.len() == 0 {
        assert forall|n: Seq<char>| !set.contains(n) by {
            assert(set.contains(n) <==> names.contains(n));
        }
        assert(set =~= Set::empty());
    } else {
        assert(names.contains(names[0]));
        assert(set != Set::<Seq<char>>::empty());
        let found = laws_read::told(c, session::begun(c, fields_of(project)).next, projects);
        let last = laws_read::told(c, laws_read::told(c, found.next, listed).next, issues);
        assert forall|k: int| 0 <= k < names.len() implies is_seen(
            last.lines[1 + k],
            issues,
            #[trigger] names[k],
        ) by {
            let values = report::values_seen(all, names[k]);
            lemma_pairs(all, names[k], Seq::empty());
            sorted::law_in_order_lists_all(values);
            let s = sorted::in_order(values);
            assert forall|t: Seq<char>| #[trigger] s.contains(t) <==> seen(issues, names[k], t) by {
                lemma_seen(issues, names[k], t);
            }
            assert(all_values(s, issues, names[k]));
            assert(last.lines[1 + k] == report::seen_line(all, names[k]));
        }
    }
}

/// There is a list of the names of the fields that the issues told have.
pub proof fn law_seen_names_can_be_listed(issues: JsonView)
    ensures
        exists|names: Seq<Seq<char>>| all_names(names, issues),
{
    let all = fields::all_fields(issues.items());
    let set = report::names_seen(all);
    lemma_named(all, Seq::empty());
    sorted::law_in_order_lists_all(set);
    let names = sorted::in_order(set);
    assert forall|n: Seq<char>|
        #[trigger] names.contains(n) <==> exists|value: Seq<char>| seen(issues, n, value) by {
        lemma_named(all, n);
        if set.contains(n) {
            let t = choose|value: Seq<char>| report::values_seen(all, n).contains(value);
            lemma_seen(issues, n, t);
            assert(seen(issues, n, t));
        }
        if exists|value: Seq<char>| seen(issues, n, value) {
            let t = choose|value: Seq<char>| seen(issues, n, value);
            lemma_seen(issues, n, t);
            assert(report::values_seen(all, n).contains(t));
        }
    }
    assert(all_names(names, issues));
}

} // verus!
