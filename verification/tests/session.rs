use yt::client::{Body, Client, Download, Reply, Request};
use yt::command::{
    Cmd, ReadCmd, ReadIssueCmd, ReadProjectCmd, ReadUserCmd, WriteCmd, WriteIssueCmd,
    WriteProjectCmd,
};
use yt::line::{Line, Step};
use yt::session::{
    begin, next_download, on_download, on_file, on_input, on_reply, on_saved, FileRead, Next,
    LINK_FIELDS, LIST_FIELDS,
};
use yt::wire;

fn client() -> Client {
    Client { base: "https://h/api".to_string(), token: "t".to_string() }
}

fn s(t: &str) -> String {
    t.to_string()
}

/// A request in one line: its method, its path and query, and its value.
fn told(q: &Request) -> String {
    let mut t = format!("{} {}", q.method, q.url.strip_prefix("https://h/").unwrap());
    for (i, (k, v)) in q.query.iter().enumerate() {
        t.push_str(if i == 0 { "?" } else { "&" });
        t.push_str(&format!("{k}={v}"));
    }
    match &q.body {
        Body::Empty => t,
        Body::Value(v) => format!("{t} {}", wire::to_text(v)),
        Body::Bytes(b) => format!("{t} {} bytes", b.len()),
    }
}

fn text_of(l: &Line) -> String {
    match l {
        Line::Plain(t) | Line::Styled(t) | Line::Note(t) => t.clone(),
    }
}

/// What a command sends and prints, given the texts of the replies.
fn run(cmd: Cmd, replies: &[&str]) -> (Vec<String>, Vec<String>, Next) {
    let c = client();
    let mut sent = vec![];
    let mut printed = vec![];
    let mut step = begin(&c, cmd);
    let mut replies = replies.iter();
    loop {
        printed.extend(step.lines.iter().map(text_of));
        match step.next {
            Next::Send(q, stage) => {
                sent.push(told(&q));
                match replies.next() {
                    None => return (sent, printed, Next::Send(q, stage)),
                    Some(r) => {
                        let reply = match r.strip_prefix("!") {
                            Some(body) => Reply::Refusal(403, s(body)),
                            None => Reply::Answer(s(r)),
                        };
                        step = on_reply(&c, stage, reply);
                    }
                }
            }
            next => return (sent, printed, next),
        }
    }
}

fn ends(cmd: Cmd, replies: &[&str]) -> (Vec<String>, Vec<String>) {
    let (sent, printed, next) = run(cmd, replies);
    assert!(matches!(next, Next::Done(true)));
    (sent, printed)
}

fn fails(cmd: Cmd, replies: &[&str]) -> String {
    match run(cmd, replies).2 {
        Next::Fail(e) => e.message,
        _ => panic!("no failure"),
    }
}

fn issue(cmd: ReadIssueCmd) -> Cmd {
    Cmd::Read(ReadCmd::Issue(cmd))
}

fn change(cmd: WriteIssueCmd) -> Cmd {
    Cmd::Write(WriteCmd::Issue(cmd))
}

fn ls(limit: usize, full: bool, merged_pr: bool) -> Cmd {
    issue(ReadIssueCmd::Ls { query: s("q"), limit, full, merged_pr })
}

// ---- lists ----

#[test]
fn issues_are_listed() {
    let rows = "[{\"idReadable\":\"D-1\",\"summary\":\"a\"},{\"idReadable\":\"D-2\",\"summary\":\"b\"}]";
    let (sent, printed) = ends(ls(2, false, false), &[rows]);
    assert_eq!(sent, vec![format!("GET api/issues?query=q&fields={LIST_FIELDS}&$top=2")]);
    assert_eq!(printed.len(), 3);
    assert_eq!(printed[2], "# limit 2 reached; refine query or raise -n");
    let (sent, printed) = ends(ls(20, true, false), &[rows]);
    assert_eq!(sent, vec![format!("GET api/issues?query=q&fields={LIST_FIELDS},description&$top=20")]);
    assert_eq!(printed.len(), 2);
}

#[test]
fn no_matches_end_without_a_notice() {
    for reply in ["[]", "", "{}"] {
        let (_, printed, next) = run(ls(20, false, false), &[reply]);
        assert_eq!(printed, vec!["no matches"]);
        assert!(matches!(next, Next::Done(false)));
    }
}

#[test]
fn merged_pull_requests_filter_the_list() {
    let rows = "[{\"idReadable\":\"D-1\",\"summary\":\"a\"},{\"summary\":\"b\"},{\"idReadable\":\"D-3\",\"summary\":\"c\"}]";
    let merged = "[{\"added\":[{\"state\":{\"id\":\"Merged\"}}]}]";
    let open = "[{\"added\":[{\"state\":{\"id\":\"OPEN\"}}]}]";
    let (sent, printed) = ends(ls(3, false, true), &[rows, open, "[]", merged]);
    assert_eq!(
        sent[1..],
        [
            s("GET api/issues/D-1/activities?categories=PullRequestChangeCategory&fields=added(state(id),url)"),
            s("GET api/issues//activities?categories=PullRequestChangeCategory&fields=added(state(id),url)"),
            s("GET api/issues/D-3/activities?categories=PullRequestChangeCategory&fields=added(state(id),url)"),
        ]
    );
    assert_eq!(printed.len(), 2);
    assert!(printed[0].ends_with("  c"));
    assert_eq!(printed[1], "# limit 3 reached; refine query or raise -n");
    let (_, printed, next) = run(ls(3, false, true), &[rows, open, open, open]);
    assert_eq!(printed, vec!["no matches"]);
    assert!(matches!(next, Next::Done(false)));
    assert_eq!(fails(ls(3, false, true), &[rows, "!no"]), "HTTP 403: no");
}

#[test]
fn small_lists() {
    let (sent, printed) = ends(issue(ReadIssueCmd::Tags), &["[{\"name\":\"x\"}]"]);
    assert_eq!(sent, vec!["GET api/tags?fields=id,name&$top=500"]);
    assert_eq!(printed, vec!["x"]);
    let (sent, printed) = ends(issue(ReadIssueCmd::Comments { id: s("D-1") }), &["[]"]);
    assert_eq!(sent, vec!["GET api/issues/D-1/comments?fields=created,text,author(login)"]);
    assert_eq!(printed, vec!["no comments"]);
    let (sent, printed) = ends(issue(ReadIssueCmd::Links { id: s("D-1") }), &["[{\"issues\":[]}]"]);
    assert_eq!(sent, vec![format!("GET api/issues/D-1/links?fields={LINK_FIELDS}")]);
    assert_eq!(printed, vec!["no links"]);
    let (sent, printed) = ends(
        Cmd::Read(ReadCmd::Project(ReadProjectCmd::Ls)),
        &["[{\"shortName\":\"D\",\"name\":\"Demo\"}]"],
    );
    assert_eq!(sent, vec!["GET api/admin/projects?fields=shortName,name,archived&$top=500"]);
    assert_eq!(printed, vec!["D  Demo"]);
    let (sent, printed) = ends(
        Cmd::Read(ReadCmd::User(ReadUserCmd::Ls { query: s("jo") })),
        &["[{\"login\":\"joe\"}]"],
    );
    assert_eq!(sent, vec!["GET api/users?query=jo&fields=login,name&$top=10"]);
    assert_eq!(printed, vec!["joe  "]);
    let (sent, printed) = ends(Cmd::Read(ReadCmd::User(ReadUserCmd::Me)), &["{\"login\":\"joe\"}"]);
    assert_eq!(sent, vec!["GET api/users/me?fields=login,name,email"]);
    assert_eq!(printed, vec!["joe    "]);
}

// ---- one issue ----

#[test]
fn an_issue_is_shown_with_links_pull_requests_and_comments() {
    let show = |comments, pr| issue(ReadIssueCmd::Show { id: s("d-1"), comments, pr });
    let i = "{\"idReadable\":\"D-1\",\"summary\":\"a\"}";
    let links = "[{\"linkType\":{\"sourceToTarget\":\"relates to\"},\"issues\":[{\"idReadable\":\"D-2\"}]}]";
    let (sent, printed) = ends(show(true, true), &[i, links, "[]", "[]"]);
    assert!(sent[0].starts_with("GET api/issues/d-1?fields=idReadable,summary,description,"));
    assert!(sent[1].starts_with("GET api/issues/D-1/links?"));
    assert!(sent[2].starts_with("GET api/issues/D-1/activities?"));
    assert!(sent[3].starts_with("GET api/issues/D-1/comments?"));
    assert_eq!(
        printed[3..],
        [
            s("\n-- links --"),
            s("relates to  \u{1b}[1m\u{1b}[36mD-2\u{1b}[0m  "),
            s("\n-- pull requests --"),
            s("no pull requests"),
            s("\n-- comments --"),
            s("no comments"),
        ]
    );
    let (sent, printed) = ends(show(false, false), &[i, "[]"]);
    assert_eq!(sent.len(), 2);
    assert_eq!(printed.len(), 3);
    let (sent, printed, _) = run(show(true, false), &[i, "[]"]);
    assert_eq!(sent.len(), 3);
    assert_eq!(printed[3], "\n-- comments --");
    assert_eq!(fails(show(true, true), &["!{\"error_description\":\"no\"}"]), "HTTP 403: no");
}

#[test]
fn attachments_are_listed_or_downloaded() {
    let cmd = |out: Option<Option<&str>>| {
        issue(ReadIssueCmd::Attachments { id: s("D-1"), out: out.map(|o| o.map(String::from)) })
    };
    let (sent, printed) = ends(cmd(None), &["[{\"name\":\"a\",\"size\":3}]"]);
    assert_eq!(sent, vec!["GET api/issues/D-1/attachments?fields=id,name,size,url"]);
    assert_eq!(printed, vec!["a  3"]);
    let (_, printed, next) = run(cmd(Some(None)), &["[]"]);
    assert_eq!(printed, vec!["no attachments"]);
    assert!(matches!(next, Next::Done(false)));

    let c = client();
    let list = "[{\"name\":\"a\",\"url\":\"/f/1\"},{\"url\":\"/f/2\"},{\"name\":\"c\"}]";
    let d = match run(cmd(Some(None)), &[list]).2 {
        Next::MakeDir(d) => d,
        _ => panic!("no directory"),
    };
    assert_eq!(d.dir, ".");
    let (q, name, d) = match next_download(&c, d).next {
        Next::Fetch(q, name, d) => (q, name, d),
        _ => panic!("no download"),
    };
    assert_eq!((q.url.as_str(), name.as_str()), ("https://h/f/1", "a"));
    let (name, bytes, d) = match on_download(name, d, Download::Answer(vec![1, 2])).next {
        Next::Save(name, bytes, d) => (name, bytes, d),
        _ => panic!("not saved"),
    };
    assert_eq!((name.as_str(), bytes), ("a", vec![1, 2]));
    let step = on_saved(&c, "./a", 2, d);
    assert_eq!(step.lines, vec![Line::Plain(s("./a  2"))]);
    let (name, d) = match step.next {
        Next::Fetch(q, name, d) => {
            assert_eq!(q.url, "https://h/f/2");
            (name, d)
        }
        _ => panic!("no second download"),
    };
    assert_eq!(name, "attachment");
    let step = on_saved(&c, "./attachment", 0, d);
    match step.next {
        Next::Fail(e) => assert_eq!(e.message, "attachment 'c' has no url"),
        _ => panic!("no failure"),
    }
    let d = match run(cmd(Some(Some("out"))), &["[{\"url\":\"/x\"}]"]).2 {
        Next::MakeDir(d) => d,
        _ => panic!("no directory"),
    };
    assert_eq!(d.dir, "out");
    let last = match next_download(&c, d).next {
        Next::Fetch(_, name, d) => {
            assert!(matches!(
                on_download(s("x"), yt::session::Downloads { dir: s("o"), list: vec![] }, Download::Refusal(404, s("gone"))).next,
                Next::Fail(e) if e.message == "HTTP 404: gone"
            ));
            on_download(name, d, Download::Answer(vec![]))
        }
        _ => panic!("no download"),
    };
    match last.next {
        Next::Save(_, _, d) => {
            assert!(matches!(on_saved(&c, "out/attachment", 0, d).next, Next::Done(true)))
        }
        _ => panic!("not saved"),
    }
}

// ---- projects ----

const PROJECTS: &str = "[{\"id\":\"0-1\",\"shortName\":\"DEMO\",\"name\":\"Demo\"}]";

#[test]
fn fields_of_a_project_are_shown() {
    let cmd = || Cmd::Read(ReadCmd::Project(ReadProjectCmd::Fields { project: s("demo") }));
    let (sent, printed) = ends(cmd(), &[PROJECTS, "[{\"field\":{\"name\":\"P\"}}]"]);
    assert_eq!(
        sent,
        vec![
            "GET api/admin/projects?fields=id,shortName,name&$top=500",
            "GET api/admin/projects/0-1/customFields?fields=canBeEmpty,field(name,fieldType(valueType)),bundle(values(name,archived))&$top=100",
        ]
    );
    assert_eq!(printed, vec!["# DEMO: * = required", "P (?)"]);
    let seen = "[{\"customFields\":[{\"name\":\"a\",\"value\":{\"name\":\"x\"}}]}]";
    let (sent, printed, next) = run(cmd(), &[PROJECTS, "[]", seen]);
    assert_eq!(
        sent[2],
        "GET api/issues?query=project: DEMO&fields=customFields(name,value(name,login,text))&$top=100"
    );
    assert_eq!(printed[1], "a: x");
    assert!(matches!(next, Next::Done(false)));
    let (sent, printed, next) = run(cmd(), &[PROJECTS, "!no rights", seen]);
    assert_eq!(
        sent[2],
        "GET api/issues?query=project: DEMO&fields=customFields(name,value(name,login,text))&$top=100"
    );
    assert_eq!(printed[1], "a: x");
    assert!(matches!(next, Next::Done(false)));
    match run(cmd(), &[PROJECTS]).2 {
        Next::Send(_, stage) => assert!(matches!(
            on_reply(&client(), stage, Reply::Refusal(500, s("down"))).next,
            Next::Fail(e) if e.message == "HTTP 500: down"
        )),
        _ => panic!("not sent"),
    }
    assert_eq!(
        fails(cmd(), &[PROJECTS, "[]", "[]"]),
        "no field info available for DEMO (no admin access, no issues to sample)"
    );
    assert_eq!(fails(cmd(), &["[]"]), "project not found: demo");
}

#[test]
fn a_project_is_created_with_a_leader() {
    let cmd = || {
        Cmd::Write(WriteCmd::Project(WriteProjectCmd::Create { short: s("NEW"), name: s("New one") }))
    };
    let (sent, printed) = ends(cmd(), &["{\"id\":\"1-1\"}", "{\"id\":\"0-9\",\"shortName\":\"NEW\"}"]);
    assert_eq!(
        sent,
        vec![
            "GET api/users/me?fields=id",
            "POST api/admin/projects?fields=id,shortName {\"leader\":{\"id\":\"1-1\"},\"name\":\"New one\",\"shortName\":\"NEW\"}",
        ]
    );
    assert_eq!(printed, vec!["NEW  0-9"]);
    assert_eq!(ends(cmd(), &["{\"id\":\"1-1\"}", ""]).1, vec!["NEW  ?"]);
    assert_eq!(fails(cmd(), &["{}"]), "could not resolve current user");
    assert_eq!(fails(cmd(), &["{\"id\":\"1-1\"}", "!{\"error\":\"Forbidden\"}"]), "HTTP 403: Forbidden");
}

// ---- new issues ----

fn new(desc: Option<&str>, field: &[&str]) -> Cmd {
    change(WriteIssueCmd::New {
        project: s("demo"),
        summary: s("Sum"),
        desc: desc.map(String::from),
        field: field.iter().map(|f| s(f)).collect(),
    })
}

const CREATED: &str = "{\"idReadable\":\"DEMO-7\"}";

#[test]
fn creating_prints_the_id_alone() {
    let (sent, printed) = ends(new(Some("text"), &[]), &[PROJECTS, CREATED]);
    assert_eq!(
        sent[1],
        "POST api/issues?fields=idReadable {\"description\":\"text\",\"project\":{\"id\":\"0-1\"},\"summary\":\"Sum\"}"
    );
    assert_eq!(sent.len(), 2);
    assert_eq!(printed, vec!["DEMO-7"]);
    assert_eq!(fails(new(None, &[]), &[PROJECTS, "{}"]), "create returned no id");
    assert_eq!(fails(new(None, &[]), &["[]"]), "project not found: demo");
}

#[test]
fn known_fields_are_part_of_the_new_issue() {
    let config = "[{\"field\":{\"name\":\"Priority\",\"fieldType\":{\"id\":\"enum[1]\"}}}]";
    let (sent, printed) = ends(new(None, &["priority Major"]), &[PROJECTS, config, CREATED]);
    assert_eq!(
        sent[1..],
        [
            s("GET api/admin/projects/0-1/customFields?fields=field(name,fieldType(id))&$top=200"),
            s("POST api/issues?fields=idReadable {\"customFields\":[{\"$type\":\"SingleEnumIssueCustomField\",\"name\":\"Priority\",\"value\":{\"name\":\"Major\"}}],\"project\":{\"id\":\"0-1\"},\"summary\":\"Sum\"}"),
        ]
    );
    assert_eq!(printed, vec!["DEMO-7"]);
}

#[test]
fn fractional_fields_are_sent_as_numbers() {
    let config = "[{\"field\":{\"name\":\"Ratio\",\"fieldType\":{\"id\":\"float\"}}}]";
    let (sent, _) = ends(new(None, &["Ratio 0.50"]), &[PROJECTS, config, CREATED]);
    assert!(sent[2].contains("\"name\":\"Ratio\",\"value\":0.5}"));
}

#[test]
fn types_of_fields_are_sampled_without_rights() {
    let seen = "[{\"customFields\":[{\"name\":\"State\",\"$type\":\"StateIssueCustomField\"}]}]";
    let (sent, _) = ends(new(None, &["State Open"]), &[PROJECTS, "!no", seen, CREATED]);
    assert_eq!(sent[2], "GET api/issues?query=project: DEMO&fields=customFields($type,name)&$top=100");
    assert!(sent[3].contains("\"customFields\":[{\"$type\":\"StateIssueCustomField\""));
    assert_eq!(sent.len(), 4);
}

#[test]
fn unknown_fields_are_set_by_a_command() {
    for replies in [["[]", "[]"], ["!no", "!no"]] {
        let (sent, printed) = ends(
            new(None, &["State Open", "x y"]),
            &[PROJECTS, replies[0], replies[1], CREATED, "{}"],
        );
        assert_eq!(sent[3], "POST api/issues?fields=idReadable {\"project\":{\"id\":\"0-1\"},\"summary\":\"Sum\"}");
        assert_eq!(
            sent[4],
            "POST api/commands {\"issues\":[{\"idReadable\":\"DEMO-7\"}],\"query\":\"State Open x y\"}"
        );
        assert_eq!(printed, vec!["DEMO-7"]);
    }
    assert_eq!(
        fails(new(None, &["x"]), &[PROJECTS, "[]", "[]", CREATED, "!bad"]),
        "DEMO-7 created, but setting fields failed: HTTP 403: bad"
    );
}

#[test]
fn a_description_can_come_from_the_input() {
    let c = client();
    let (_, _, next) = run(new(Some("-"), &[]), &[PROJECTS]);
    match next {
        Next::ReadInput(p) => match on_input(&c, p, "line\n\n").next {
            Next::Send(q, _) => assert_eq!(
                told(&q),
                "POST api/issues?fields=idReadable {\"description\":\"line\",\"project\":{\"id\":\"0-1\"},\"summary\":\"Sum\"}"
            ),
            _ => panic!("not sent"),
        },
        _ => panic!("no input wanted"),
    }
}

// ---- changes ----

#[test]
fn editing_prints_the_id() {
    let edit = |summary: Option<&str>, desc: Option<&str>| {
        change(WriteIssueCmd::Edit {
            id: s("D-1"),
            summary: summary.map(String::from),
            desc: desc.map(String::from),
        })
    };
    let (sent, printed) = ends(edit(Some("a"), Some("b")), &["{}"]);
    assert_eq!(
        sent,
        vec!["POST api/issues/D-1?fields=idReadable {\"description\":\"b\",\"summary\":\"a\"}"]
    );
    assert_eq!(printed, vec!["D-1"]);
    assert_eq!(
        ends(edit(Some("a"), None), &[""]).0,
        vec!["POST api/issues/D-1?fields=idReadable {\"summary\":\"a\"}"]
    );
    assert_eq!(fails(edit(None, None), &[]), "nothing to edit: pass --summary and/or --desc");
    match run(edit(None, Some("-")), &[]).2 {
        Next::ReadInput(p) => match on_input(&client(), p, " x ").next {
            Next::Send(q, _) => assert_eq!(
                told(&q),
                "POST api/issues/D-1?fields=idReadable {\"description\":\" x\"}"
            ),
            _ => panic!("not sent"),
        },
        _ => panic!("no input wanted"),
    }
}

#[test]
fn a_comment_prints_ok() {
    let comment =
        |t: Option<&str>| change(WriteIssueCmd::Comment { id: s("D-1"), text: t.map(String::from) });
    let (sent, printed) = ends(comment(Some("hi ")), &["{}"]);
    assert_eq!(sent, vec!["POST api/issues/D-1/comments {\"text\":\"hi \"}"]);
    assert_eq!(printed, vec!["ok"]);
    assert_eq!(fails(comment(Some("")), &[]), "empty comment");
    let from_input = |t: &str| match run(comment(None), &[]).2 {
        Next::ReadInput(p) => on_input(&client(), p, t).next,
        _ => panic!("no input wanted"),
    };
    assert!(matches!(from_input(" \n"), Next::Fail(e) if e.message == "empty comment"));
    assert!(matches!(from_input("x\n"), Next::Send(q, _) if told(&q).ends_with("{\"text\":\"x\"}")));
}

#[test]
fn commands_are_applied_to_issues() {
    let (sent, printed) = ends(
        change(WriteIssueCmd::Cmd {
            command: s("State Fixed"),
            ids: vec![s("D-1"), s("2-3")],
            comment: Some(s("done")),
        }),
        &["{}"],
    );
    assert_eq!(
        sent,
        vec!["POST api/commands {\"comment\":\"done\",\"issues\":[{\"idReadable\":\"D-1\"},{\"id\":\"2-3\"}],\"query\":\"State Fixed\"}"]
    );
    assert_eq!(printed, vec!["ok"]);
}

const GROUPS: &str = "[{\"id\":\"g1\",\"direction\":\"OUTWARD\",\"linkType\":{\"sourceToTarget\":\"relates to\"}}]";

#[test]
fn issues_are_linked_and_unlinked() {
    let link = |phrase: &str| {
        change(WriteIssueCmd::Link { id: s("D-1"), phrase: s(phrase), target: s("D-2") })
    };
    let (sent, printed) = ends(link("Relates to"), &[GROUPS, "{}"]);
    assert_eq!(
        sent[1],
        "POST api/issues/D-1/links/g1/issues?fields=idReadable {\"idReadable\":\"D-2\"}"
    );
    assert_eq!(printed, vec!["D-1 Relates to D-2"]);
    assert_eq!(
        fails(link("blocks"), &[GROUPS]),
        "unknown link phrase \"blocks\"; this server accepts: relates to"
    );
    let unlink = || {
        change(WriteIssueCmd::Unlink { id: s("D-1"), phrase: s("relates to"), target: s("D-2") })
    };
    let (sent, printed) = ends(unlink(), &[GROUPS, "{\"id\":\"2-2\"}", ""]);
    assert_eq!(sent[1], "GET api/issues/D-2?fields=id");
    assert_eq!(sent[2], "DELETE api/issues/D-1/links/g1/issues/2-2");
    assert_eq!(printed, vec!["D-1 unlinked D-2"]);
    assert_eq!(fails(unlink(), &[GROUPS, "{}"]), "no such issue: D-2");
    assert_eq!(
        fails(unlink(), &["[]"]),
        "unknown link phrase \"relates to\"; this server accepts: "
    );
}

#[test]
fn tags_are_put_on_and_taken_off() {
    let tags = "[{\"id\":\"5-1\",\"name\":\"Blocked\"}]";
    let (sent, printed) =
        ends(change(WriteIssueCmd::Tag { id: s("D-1"), tag: s("blocked") }), &[tags, "{}"]);
    assert_eq!(sent[1], "POST api/issues/D-1/tags {\"id\":\"5-1\"}");
    assert_eq!(printed, vec!["ok"]);
    let (sent, printed) =
        ends(change(WriteIssueCmd::Untag { id: s("D-1"), tag: s("blocked") }), &[tags, ""]);
    assert_eq!(sent[1], "DELETE api/issues/D-1/tags/5-1");
    assert_eq!(printed, vec!["ok"]);
    assert_eq!(
        fails(change(WriteIssueCmd::Untag { id: s("D-1"), tag: s("x") }), &[tags]),
        "tag not found: x"
    );
}

#[test]
fn files_are_uploaded_one_by_one() {
    let c = client();
    let attach = |comment: Option<&str>| {
        change(WriteIssueCmd::Attach {
            id: s("D-1"),
            files: vec![s("d/a.png"), s("b")],
            comment: comment.map(String::from),
        })
    };
    let file = |n: Next| match n {
        Next::ReadFile(u) => u,
        _ => panic!("no file wanted"),
    };
    let sent = |step: Step<Next>| match step.next {
        Next::Send(q, stage) => (told(&q), stage),
        _ => panic!("not sent"),
    };
    let u = file(begin(&c, attach(None)).next);
    assert_eq!(u.file, "d/a.png");
    let (t, stage) = sent(on_file(&c, u, FileRead::Read(s("a.png"), vec![1])));
    assert!(t.starts_with("POST api/issues/D-1/attachments?fields=id,name "));
    let step = on_reply(&c, stage, Reply::Answer(s("{\"id\":\"8-1\",\"name\":\"a.png\"}")));
    assert_eq!(step.lines, vec![Line::Plain(s("8-1  a.png"))]);
    let u = file(step.next);
    assert_eq!(u.file, "b");
    let (_, stage) = sent(on_file(&c, u, FileRead::Read(s("b"), vec![])));
    let step = on_reply(&c, stage, Reply::Answer(s("")));
    assert_eq!(step.lines, vec![Line::Plain(s("?  ?"))]);
    assert!(matches!(step.next, Next::Done(true)));

    let u = file(begin(&c, attach(Some("4-9"))).next);
    assert_eq!(u.path, "issues/D-1/comments/4-9/attachments");
    assert!(matches!(
        on_file(&c, u, FileRead::Unreadable(s("no such file"))).next,
        Next::Fail(e) if e.message == "cannot read d/a.png: no such file"
    ));
    let u = file(begin(&c, attach(None)).next);
    assert!(matches!(
        on_file(&c, u, FileRead::Unnamed).next,
        Next::Fail(e) if e.message == "bad file name: d/a.png"
    ));
}

// ---- the tier that reads ----

#[test]
fn the_read_tier_only_asks() {
    let commands: Vec<fn() -> Cmd> = vec![
        || ls(2, true, true),
        || issue(ReadIssueCmd::Show { id: s("D-1"), comments: true, pr: true }),
        || issue(ReadIssueCmd::Attachments { id: s("D-1"), out: None }),
        || issue(ReadIssueCmd::Comments { id: s("D-1") }),
        || issue(ReadIssueCmd::Links { id: s("D-1") }),
        || issue(ReadIssueCmd::Tags),
        || Cmd::Read(ReadCmd::Project(ReadProjectCmd::Ls)),
        || Cmd::Read(ReadCmd::Project(ReadProjectCmd::Fields { project: s("demo") })),
        || Cmd::Read(ReadCmd::User(ReadUserCmd::Ls { query: s("x") })),
        || Cmd::Read(ReadCmd::User(ReadUserCmd::Me)),
    ];
    for reply in ["[]", "{}", "[{\"id\":\"1\",\"shortName\":\"demo\"},{}]"] {
        for cmd in &commands {
            let (sent, _, _) = run(cmd(), &[reply; 6]);
            assert!(!sent.is_empty());
            for t in sent {
                assert!(t.starts_with("GET ") && !t.contains('{'));
            }
        }
    }
}
