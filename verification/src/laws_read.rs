//! What the commands that read ask the server for, and what they print of its replies.

use vstd::prelude::*;
use crate::client::{BodyView, ClientView, RequestView};
use crate::command::{Cmd, ReadCmd, ReadIssueCmd};
use crate::fields;
use crate::json::JsonView;
use crate::laws_shown;
use crate::line::{LineView, StepView};
use crate::lookup;
use crate::number;
use crate::report;
use crate::session::{Answer, DownloadsView, NextView, StageView};
use crate::session;
use crate::style;
use crate::text;

verus! {

// ---- requests ----

/// A request to the API of the server `c`.
pub open spec fn api_request(
    c: ClientView,
    method: Seq<char>,
    path: Seq<char>,
    query: Seq<(Seq<char>, Seq<char>)>,
    body: BodyView,
) -> RequestView {
    RequestView {
        method,
        url: c.base + "/"@ + path,
        headers: seq![
            ("Authorization"@, "Bearer "@ + c.token),
            ("Accept"@, "application/json"@),
        ],
        query,
        body,
        timeout: None,
    }
}

/// Whether the next thing is to ask the server for `path`.
pub open spec fn asks(
    c: ClientView,
    n: NextView,
    path: Seq<char>,
    query: Seq<(Seq<char>, Seq<char>)>,
) -> bool {
    n matches NextView::Send(r, _) && r == api_request(c, "GET"@, path, query, BodyView::Empty)
}

/// Whether the next thing is to send the server `body` for `path`.
pub open spec fn posts(
    c: ClientView,
    n: NextView,
    path: Seq<char>,
    query: Seq<(Seq<char>, Seq<char>)>,
    body: JsonView,
) -> bool {
    n matches NextView::Send(r, _) && r == api_request(
        c,
        "POST"@,
        path,
        query,
        BodyView::Value(body),
    )
}

/// Whether the next thing is to have the server delete `path`.
pub open spec fn deletes(c: ClientView, n: NextView, path: Seq<char>) -> bool {
    n matches NextView::Send(r, _) && r == api_request(
        c,
        "DELETE"@,
        path,
        Seq::empty(),
        BodyView::Empty,
    )
}

/// What follows the value `v` as the reply to what is next.
pub open spec fn told(c: ClientView, n: NextView, v: JsonView) -> StepView<NextView> {
    session::followed(c, n, Answer::Reply(Ok(v), false))
}

/// The text of the member `key`, or `other` where it is no text.
pub open spec fn said(v: JsonView, key: Seq<char>, other: Seq<char>) -> Seq<char> {
    match v {
        JsonView::Object(m) => if m.contains_key(key) && m[key] is Text {
            m[key]->Text_0
        } else {
            other
        },
        _ => other,
    }
}

/// A query of the parameters put behind one another.
pub proof fn lemma_query(
    a: (Seq<char>, Seq<char>),
    b: (Seq<char>, Seq<char>),
    d: (Seq<char>, Seq<char>),
)
    ensures
        Seq::empty().push(a) == seq![a],
        Seq::empty().push(a).push(b) == seq![a, b],
        Seq::empty().push(a).push(b).push(d) == seq![a, b, d],
{
    assert(Seq::empty().push(a) =~= seq![a]);
    assert(Seq::empty().push(a).push(b) =~= seq![a, b]);
    assert(Seq::empty().push(a).push(b).push(d) =~= seq![a, b, d]);
}

// ---- lists ----

/// Where the lines of each value stand.
proof fn lemma_spread(s: Seq<JsonView>, f: spec_fn(JsonView) -> Seq<LineView>, k: int, j: int)
    requires
        0 <= k < s.len(),
        0 <= j < f(s[k]).len(),
    ensures
        report::spread(s.take(k), f).len() + f(s[k]).len() <= report::spread(s, f).len(),
        report::spread(s, f)[report::spread(s.take(k), f).len() + j] == f(s[k])[j],
    decreases s.len(),
{
    let d = s.drop_last();
    if k < d.len() {
        lemma_spread(d, f, k, j);
        assert(d.take(k) =~= s.take(k));
    } else {
        assert(s.take(k) =~= d);
    }
}

/// The lines of values that have one each.
pub proof fn lemma_spread_single(
    s: Seq<JsonView>,
    f: spec_fn(JsonView) -> Seq<LineView>,
    g: spec_fn(JsonView) -> LineView,
)
    requires
        forall|v: JsonView| #[trigger] f(v) == seq![g(v)],
    ensures
        report::spread(s, f) == s.map_values(g),
    decreases s.len(),
{
    if s.len() > 0 {
        lemma_spread_single(s.drop_last(), f, g);
        assert(f(s.last()) == seq![g(s.last())]);
    }
    assert(report::spread(s, f) =~= s.map_values(g));
}

/// Four texts in columns.
pub open spec fn columns(a: Seq<char>, b: Seq<char>, d: Seq<char>, e: Seq<char>) -> Seq<char> {
    a + "  "@ + b + "  "@ + d + "  "@ + e
}

/// Whether a line is made of an id, a state, a priority and a summary, styles aside.
pub open spec fn is_row(
    l: LineView,
    id: Seq<char>,
    state: Seq<char>,
    priority: Seq<char>,
    summary: Seq<char>,
) -> bool {
    l matches LineView::Styled(t) && exists|x: Seq<char>, y: Seq<char>, z: Seq<char>|
        style::dresses(x, id) && style::dresses(y, state) && style::dresses(z, priority) && t
            == #[trigger] columns(x, y, z, summary)
}

/// A text in bold cyan, as the terminal is told.
pub open spec fn bright(t: Seq<char>) -> Seq<char> {
    "\u{1b}[1m"@ + "\u{1b}[36m"@ + t + "\u{1b}[0m"@
}

pub proof fn lemma_bright(t: Seq<char>)
    ensures
        style::styled(style::bold_colored(style::Color::Cyan), t) == bright(t),
        style::dresses(bright(t), t),
{
    style::law_styles_leave_the_text(style::bold_colored(style::Color::Cyan), t);
    assert(style::styled(style::bold_colored(style::Color::Cyan), t) =~= bright(t));
}

/// Whether the first field of an issue that goes by `name` has a value called `t`.
pub open spec fn has_value(issue: JsonView, name: Seq<char>, t: Seq<char>) -> bool {
    let s = issue.member("customFields"@).items();
    exists|n: int|
        0 <= n < s.len() && laws_shown::goes_by(#[trigger] s[n], "name"@, name) && (forall|k: int|
            0 <= k < n ==> !laws_shown::goes_by(#[trigger] s[k], "name"@, name)) && (
        s[n].member("value"@) matches JsonView::Object(m) && !m.contains_key("login"@)
            && m.contains_key("name"@) && m["name"@] == JsonView::Text(t))
}

/// Whether an issue has no field that goes by `name`.
pub open spec fn has_none(issue: JsonView, name: Seq<char>) -> bool {
    let s = issue.member("customFields"@).items();
    forall|k: int| 0 <= k < s.len() ==> !laws_shown::goes_by(#[trigger] s[k], "name"@, name)
}

proof fn lemma_has_value(issue: JsonView, name: Seq<char>, t: Seq<char>)
    ensures
        has_value(issue, name, t) ==> fields::shown_field(issue, name) == Some(t),
        has_none(issue, name) ==> fields::shown_field(issue, name) is None,
{
    let s = issue.member("customFields"@).items();
    laws_shown::law_fields_are_found_by_name(issue, name, 0);
    if has_value(issue, name, t) {
        let n = choose|n: int|
            0 <= n < s.len() && laws_shown::goes_by(#[trigger] s[n], "name"@, name) && (forall|
                k: int,
            |
                0 <= k < n ==> !laws_shown::goes_by(#[trigger] s[k], "name"@, name)) && (
            s[n].member("value"@) matches JsonView::Object(m) && !m.contains_key("login"@)
                && m.contains_key("name"@) && m["name"@] == JsonView::Text(t));
        laws_shown::law_fields_are_found_by_name(issue, name, n);
        laws_shown::law_single_values_are_shown(s[n].member("value"@));
    }
}

/// The description of an issue that is not empty.
pub open spec fn described(issue: JsonView) -> bool {
    said(issue, "description"@, ""@).len() > 0
}

/// The lines of the description of an issue, white space at its end aside.
pub open spec fn description(issue: JsonView) -> Seq<Seq<char>> {
    text::lines_of(text::trimmed_end(said(issue, "description"@, ""@)))
}

/// How many lines an issue takes in a list.
pub open spec fn extent(issue: JsonView, full: bool) -> nat {
    if full && described(issue) {
        description(issue).len() + 2
    } else {
        1
    }
}

/// How many lines the issues `s` take in a list.
pub open spec fn extents(s: Seq<JsonView>, full: bool) -> nat
    decreases s.len(),
{
    if s.len() == 0 {
        0
    } else {
        extents(s.drop_last(), full) + extent(s.last(), full)
    }
}

/// Whether `lines` list the issues `rows`, at most `limit` of which were asked for and
/// `fetched` told: each by its id, state, priority and summary, with the description
/// below it where `full`, moved in and closed by an empty line; a hint at the end where
/// there may be more; and a word where there is none.
pub open spec fn lists(
    lines: Seq<LineView>,
    rows: Seq<JsonView>,
    fetched: nat,
    limit: nat,
    full: bool,
) -> bool {
    if rows.len() == 0 {
        lines == seq![LineView::Plain("no matches"@)]
    } else {
        &&& lines.len() == extents(rows, full) + (if fetched == limit {
            1int
        } else {
            0
        })
        &&& fetched == limit ==> lines.last() == LineView::Plain(
            "# limit "@ + number::decimal(limit) + " reached; refine query or raise -n"@,
        )
        &&& forall|k: int|
            0 <= k < rows.len() ==> lists_one(
                lines,
                extents(rows.take(k), full) as int,
                #[trigger] rows[k],
            )
        &&& full ==> forall|k: int|
            0 <= k < rows.len() && described(#[trigger] rows[k]) ==> describes(
                lines,
                extents(rows.take(k), full) as int,
                rows[k],
            )
    }
}

/// Whether the line `at` is that of an issue.
pub open spec fn lists_one(lines: Seq<LineView>, at: int, issue: JsonView) -> bool {
    &&& 0 <= at < lines.len()
    &&& forall|s: Seq<char>, p: Seq<char>|
        (has_value(issue, "State"@, s) || has_none(issue, "State"@) && s == "-"@) && (has_value(
            issue,
            "Priority"@,
            p,
        ) || has_none(issue, "Priority"@) && p == "-"@) ==> #[trigger] is_row(
            lines[at],
            said(issue, "idReadable"@, "?"@),
            s,
            p,
            said(issue, "summary"@, ""@),
        )
    &&& ({
        let s = match fields::shown_field(issue, "State"@) {
            Some(s) => s,
            None => "-"@,
        };
        let p = match fields::shown_field(issue, "Priority"@) {
            Some(p) => p,
            None => "-"@,
        };
        lines[at] == LineView::Styled(
            columns(
                bright(said(issue, "idReadable"@, "?"@)),
                style::styled(style::style_of_state(s), s),
                style::styled(style::style_of_priority(p), p),
                said(issue, "summary"@, ""@),
            ),
        )
    })
}

/// Whether the lines behind the line `at` are the description of an issue.
pub open spec fn describes(lines: Seq<LineView>, at: int, issue: JsonView) -> bool {
    let d = description(issue);
    &&& 0 <= at && at + d.len() + 1 < lines.len()
    &&& forall|j: int|
        0 <= j < d.len() ==> lines[at + 1 + j] == LineView::Plain("  "@ + #[trigger] d[j])
    &&& lines[at + 1 + d.len()] == LineView::Plain(""@)
}

proof fn lemma_extents(s: Seq<JsonView>, full: bool)
    ensures
        report::spread(s, |i: JsonView| report::issue_lines(i, full)).len() == extents(s, full),
    decreases s.len(),
{
    if s.len() > 0 {
        lemma_extents(s.drop_last(), full);
        lemma_issue_lines(s.last(), full);
    }
}

proof fn lemma_issue_lines(i: JsonView, full: bool)
    ensures
        report::issue_lines(i, full).len() == extent(i, full),
        lists_one(report::issue_lines(i, full), 0, i),
        full && described(i) ==> describes(report::issue_lines(i, full), 0, i),
{
    let l = report::issue_lines(i, full);
    let id = said(i, "idReadable"@, "?"@);
    let summary = said(i, "summary"@, ""@);
    assert(l[0] == LineView::Styled(report::issue_line(i)));
    lemma_bright(id);
    let st = report::state_of(i);
    let pr = report::priority_of(i);
    style::law_styles_leave_the_text(style::style_of_state(st), st);
    style::law_styles_leave_the_text(style::style_of_priority(pr), pr);
    assert forall|s: Seq<char>, p: Seq<char>|
        (has_value(i, "State"@, s) || has_none(i, "State"@) && s == "-"@) && (has_value(
            i,
            "Priority"@,
            p,
        ) || has_none(i, "Priority"@) && p == "-"@) implies #[trigger] is_row(
        l[0],
        id,
        s,
        p,
        summary,
    ) by {
        lemma_has_value(i, "State"@, s);
        lemma_has_value(i, "Priority"@, p);
        assert(s == st && p == pr);
        assert(report::issue_line(i) == columns(
            bright(id),
            style::styled(style::style_of_state(st), st),
            style::styled(style::style_of_priority(pr), pr),
            summary,
        ));
    }
    reveal_strlit("");
    if full && described(i) {
        assert(report::some_text(i, "description"@) == Some(said(i, "description"@, ""@)));
        assert(l[1 + description(i).len() as int] == LineView::Plain(""@));
        let d = description(i);
        assert forall|j: int| 0 <= j < d.len() implies l[0 + 1 + j] == LineView::Plain(
            "  "@ + #[trigger] d[j],
        ) by {}
    }
}

/// A list of issues is what it should be.
proof fn lemma_lists(rows: Seq<JsonView>, fetched: nat, limit: nat, full: bool)
    ensures
        lists(report::listing(rows, fetched, limit, full), rows, fetched, limit, full),
{
    if rows.len() > 0 {
        let f = |i: JsonView| report::issue_lines(i, full);
        let lines = report::listing(rows, fetched, limit, full);
        lemma_extents(rows, full);
        let body = report::spread(rows, f);
        assert forall|k: int| 0 <= k < rows.len() implies lists_one(
            lines,
            extents(rows.take(k), full) as int,
            #[trigger] rows[k],
        ) && (full && described(rows[k]) ==> describes(lines, extents(rows.take(k), full) as int, rows[k]))
            by {
            let at: int = extents(rows.take(k), full) as int;
            lemma_extents(rows.take(k), full);
            lemma_issue_lines(rows[k], full);
            let own = report::issue_lines(rows[k], full);
            assert(f(rows[k]) == own);
            assert forall|j: int| 0 <= j < own.len() implies lines[at + j] == #[trigger] own[j]
                && at + own.len() <= body.len() by {
                lemma_spread(rows, f, k, j);
            }
            assert(lines[at + 0] == own[0]);
            if full && described(rows[k]) {
                let d = description(rows[k]);
                assert(lines[at + (1 + d.len())] == own[1 + d.len() as int]);
                assert forall|j: int| 0 <= j < d.len() implies lines[at + 1 + j] == LineView::Plain(
                    "  "@ + #[trigger] d[j],
                ) by {
                    assert(own[0 + 1 + j] == LineView::Plain("  "@ + d[j]));
                    assert(lines[at + (1 + j)] == own[1 + j]);
                }
            }
        }
    }
}

/// The command that lists issues.
pub open spec fn ls(query: String, limit: usize, full: bool, merged_pr: bool) -> Cmd {
    Cmd::Read(ReadCmd::Issue(ReadIssueCmd::Ls { query, limit, full, merged_pr }))
}

/// To list issues is to ask for those that the query finds, as many as the limit allows,
/// and to show each that is told, in order. Where there is none, no notice is due.
pub proof fn law_issues_are_listed(
    c: ClientView,
    query: String,
    limit: usize,
    full: bool,
    merged_pr: bool,
    v: JsonView,
)
    ensures
        ({
            let first = session::begun(c, ls(query, limit, full, merged_pr));
            let last = told(c, first.next, v);
            &&& first.lines.len() == 0
            &&& asks(
                c,
                first.next,
                "issues"@,
                seq![
                    ("query"@, query@),
                    (
                        "fields"@,
                        if full {
                            "idReadable,summary,customFields(name,value(name,login,text))"@
                                + ",description"@
                        } else {
                            "idReadable,summary,customFields(name,value(name,login,text))"@
                        },
                    ),
                    ("$top"@, number::decimal(limit as nat)),
                ],
            )
            &&& !merged_pr ==> lists(last.lines, v.items(), v.items().len(), limit as nat, full)
            &&& !merged_pr ==> last.next == NextView::Done(v.items().len() > 0)
        }),
{
    lemma_query(
        ("query"@, query@),
        ("fields"@, session::row_fields(full)),
        ("$top"@, number::decimal(limit as nat)),
    );
    lemma_lists(v.items(), v.items().len(), limit as nat, full);
}

/// The line of an issue whose state and priority are told has both, and the id before
/// them and the summary behind them, styles aside.
pub proof fn law_state_and_priority_are_listed(
    c: ClientView,
    query: String,
    limit: usize,
    v: JsonView,
    k: int,
    state: Seq<char>,
    priority: Seq<char>,
)
    requires
        0 <= k < v.items().len(),
        has_value(v.items()[k], "State"@, state),
        has_value(v.items()[k], "Priority"@, priority),
    ensures
        is_row(
            told(c, session::begun(c, ls(query, limit, false, false)).next, v).lines[k],
            said(v.items()[k], "idReadable"@, "?"@),
            state,
            priority,
            said(v.items()[k], "summary"@, ""@),
        ),
{
    law_issues_are_listed(c, query, limit, false, false, v);
    lemma_extents_single(v.items().take(k));
    assert(v.items().take(k).len() == k);
}

/// Without their descriptions issues take a line each.
proof fn lemma_extents_single(s: Seq<JsonView>)
    ensures
        extents(s, false) == s.len(),
    decreases s.len(),
{
    if s.len() > 0 {
        lemma_extents_single(s.drop_last());
    }
}

// ---- merged pull requests ----

/// Whether the activities `v` tell of a pull request that was merged.
pub open spec fn merges(v: JsonView) -> bool {
    exists|i: int, j: int|
        0 <= i < v.items().len() && 0 <= j < added(v, i).len() && laws_shown::goes_by(
            (#[trigger] added(v, i)[j]).member("state"@),
            "id"@,
            "merged"@,
        )
}

/// What an activity adds.
pub open spec fn added(v: JsonView, i: int) -> Seq<JsonView> {
    v.items()[i].member("added"@).items()
}

/// The issues `s` whose activities tell of a merged pull request.
pub open spec fn chosen(s: Seq<JsonView>, activities: Seq<JsonView>) -> Seq<JsonView>
    decreases s.len(),
{
    if s.len() == 0 {
        Seq::empty()
    } else if merges(activities[s.len() - 1]) {
        chosen(s.drop_last(), activities).push(s.last())
    } else {
        chosen(s.drop_last(), activities)
    }
}

proof fn lemma_all_added(s: Seq<JsonView>, i: int, j: int)
    requires
        0 <= i < s.len(),
        0 <= j < s[i].member("added"@).items().len(),
    ensures
        lookup::all_added(s).contains(s[i].member("added"@).items()[j]),
    decreases s.len(),
{
    let d = s.drop_last();
    let x = s[i].member("added"@).items()[j];
    let head = lookup::all_added(d);
    if i < d.len() {
        lemma_all_added(d, i, j);
        let n = choose|n: int| 0 <= n < head.len() && head[n] == x;
        assert(lookup::all_added(s)[n] == x);
    } else {
        assert(lookup::all_added(s)[head.len() + j] == x);
    }
}

proof fn lemma_added_from(s: Seq<JsonView>, n: int) -> (r: (int, int))
    requires
        0 <= n < lookup::all_added(s).len(),
    ensures
        0 <= r.0 < s.len(),
        0 <= r.1 < s[r.0].member("added"@).items().len(),
        lookup::all_added(s)[n] == s[r.0].member("added"@).items()[r.1],
    decreases s.len(),
{
    let d = s.drop_last();
    let head = lookup::all_added(d);
    if n < head.len() {
        lemma_added_from(d, n)
    } else {
        (s.len() - 1, n - head.len())
    }
}

proof fn lemma_changes(s: Seq<JsonView>)
    ensures
        lookup::merged(lookup::pr_changes(s)) <==> exists|n: int|
            0 <= n < s.len() && laws_shown::goes_by(
                (#[trigger] s[n]).member("state"@),
                "id"@,
                "merged"@,
            ),
    decreases s.len(),
{
    if s.len() > 0 {
        let d = s.drop_last();
        lemma_changes(d);
        let a = lookup::pr_changes(d);
        let b = lookup::pr_changes(s);
        let hit = |v: JsonView| laws_shown::goes_by(v.member("state"@), "id"@, "merged"@);
        if lookup::merged(b) {
            let i = choose|i: int| 0 <= i < b.len() && text::alike((#[trigger] b[i]).0, "merged"@);
            if i < a.len() {
                assert(text::alike(a[i].0, "merged"@));
                let n = choose|n: int|
                    0 <= n < d.len() && laws_shown::goes_by(
                        (#[trigger] d[n]).member("state"@),
                        "id"@,
                        "merged"@,
                    );
                assert(hit(s[n]));
            } else {
                assert(hit(s[s.len() - 1]));
            }
        }
        if exists|n: int|
            0 <= n < s.len() && laws_shown::goes_by(
                (#[trigger] s[n]).member("state"@),
                "id"@,
                "merged"@,
            ) {
            let n = choose|n: int|
                0 <= n < s.len() && laws_shown::goes_by(
                    (#[trigger] s[n]).member("state"@),
                    "id"@,
                    "merged"@,
                );
            if n < d.len() {
                assert(hit(d[n]));
                let i = choose|i: int|
                    0 <= i < a.len() && text::alike((#[trigger] a[i]).0, "merged"@);
                assert(b[i] == a[i]);
                assert(text::alike(b[i].0, "merged"@));
            } else {
                assert(text::alike(b[b.len() - 1].0, "merged"@));
            }
        }
    }
}

proof fn lemma_merges(v: JsonView)
    ensures
        session::tells_merge(v) == merges(v),
{
    let s = v.items();
    let all = lookup::all_added(s);
    lemma_changes(all);
    if merges(v) {
        let (i, j) = choose|i: int, j: int|
            0 <= i < s.len() && 0 <= j < added(v, i).len() && laws_shown::goes_by(
                (#[trigger] added(v, i)[j]).member("state"@),
                "id"@,
                "merged"@,
            );
        lemma_all_added(s, i, j);
        let n = choose|n: int| 0 <= n < all.len() && all[n] == added(v, i)[j];
        assert(laws_shown::goes_by(all[n].member("state"@), "id"@, "merged"@));
    }
    if session::tells_merge(v) {
        let n = choose|n: int|
            0 <= n < all.len() && laws_shown::goes_by(
                (#[trigger] all[n]).member("state"@),
                "id"@,
                "merged"@,
            );
        let r = lemma_added_from(s, n);
        assert(laws_shown::goes_by(added(v, r.0)[r.1].member("state"@), "id"@, "merged"@));
    }
}

proof fn lemma_chosen(s: Seq<JsonView>, activities: Seq<JsonView>)
    requires
        s.len() <= activities.len(),
    ensures
        report::kept(s, session::as_verdicts(activities)) == chosen(s, activities),
    decreases s.len(),
{
    if s.len() > 0 {
        lemma_chosen(s.drop_last(), activities);
        lemma_merges(activities[s.len() - 1]);
    }
}

proof fn lemma_looking(
    c: ClientView,
    issues: Seq<JsonView>,
    activities: Seq<JsonView>,
    limit: nat,
    full: bool,
)
    requires
        activities.len() < issues.len(),
    ensures
        session::after(
            c,
            session::rows_next(c, issues, Seq::empty(), limit, full).next,
            session::as_answers(activities),
        ) == session::rows_next(c, issues, session::as_verdicts(activities), limit, full).next,
    decreases activities.len(),
{
    if activities.len() == 0 {
        assert(session::as_verdicts(activities) =~= Seq::empty());
        assert(session::as_answers(activities).len() == 0);
    } else {
        let before = activities.drop_last();
        lemma_looking(c, issues, before, limit, full);
        assert(session::as_answers(activities).drop_last() =~= session::as_answers(before));
        assert(session::as_answers(activities).last() == Answer::Reply(
            Ok(activities.last()),
            false,
        ));
        assert(session::as_verdicts(activities) =~= session::as_verdicts(before).push(
            session::tells_merge(activities.last()),
        ));
    }
}

/// To list the issues with a merged pull request is to ask for the activities of each
/// issue found, in order, and then to list those alone whose activities add a pull
/// request in the state of that name.
pub proof fn law_issues_with_a_merge_are_listed(
    c: ClientView,
    query: String,
    limit: usize,
    full: bool,
    v: JsonView,
    activities: Seq<JsonView>,
    k: int,
)
    requires
        activities.len() == v.items().len(),
    ensures
        ({
            let s = v.items();
            let first = session::begun(c, ls(query, limit, full, true));
            let found = told(c, first.next, v);
            let last = told(
                c,
                session::after(c, found.next, session::as_answers(activities.drop_last())),
                activities.last(),
            );
            let rows = chosen(s, activities);
            &&& s.len() == 0 ==> lists(found.lines, s, 0, limit as nat, full) && found.next
                == NextView::Done(false)
            &&& s.len() > 0 ==> found.lines.len() == 0 && lists(
                last.lines,
                rows,
                s.len(),
                limit as nat,
                full,
            ) && last.next == NextView::Done(rows.len() > 0)
            &&& 0 <= k < s.len() ==> asks(
                c,
                session::after(c, found.next, session::as_answers(activities.take(k))),
                "issues/"@ + said(s[k], "idReadable"@, ""@) + "/activities"@,
                seq![
                    ("categories"@, "PullRequestChangeCategory"@),
                    ("fields"@, "added(state(id),url)"@),
                ],
            )
        }),
{
    let s = v.items();
    lemma_query(
        ("categories"@, "PullRequestChangeCategory"@),
        ("fields"@, "added(state(id),url)"@),
        ("fields"@, "added(state(id),url)"@),
    );
    lemma_lists(chosen(s, activities), s.len(), limit as nat, full);
    if s.len() == 0 {
        assert(report::kept(s, Seq::empty()) =~= Seq::empty());
    } else {
        let before = activities.drop_last();
        lemma_looking(c, s, before, limit as nat, full);
        assert(session::as_verdicts(activities) =~= session::as_verdicts(before).push(
            session::tells_merge(activities.last()),
        ));
        lemma_chosen(s, activities);
        if 0 <= k < s.len() {
            lemma_looking(c, s, activities.take(k), limit as nat, full);
            assert(session::as_verdicts(activities.take(k)).len() == k);
        }
    }
}

// ---- what goes wrong ----

/// What the server says of a request that it refuses ends the command, word for word, and
/// nothing is printed; but for the requests that a command can do without, and for the
/// command that sets the fields of an issue that is there by then.
pub proof fn law_failures_are_told_word_for_word(
    c: ClientView,
    r: RequestView,
    s: StageView,
    e: Seq<char>,
    forbidden: bool,
)
    requires
        !(s is NewFields),
        !(s is NewSeenFields),
        !(s is Fields && forbidden),
    ensures
        ({
            let step = session::followed(c, NextView::Send(r, s), Answer::Reply(Err(e), forbidden));
            &&& step.lines.len() == 0
            &&& match s {
                StageView::Commanded { id } => step.next == NextView::Fail(
                    id + " created, but setting fields failed: "@ + e,
                ),
                _ => step.next == NextView::Fail(e),
            }
        }),
{
}

/// A download that fails ends the command, with the reason.
pub proof fn law_failed_downloads_are_told(
    c: ClientView,
    r: RequestView,
    name: Seq<char>,
    d: DownloadsView,
    e: Seq<char>,
)
    ensures
        session::followed(c, NextView::Fetch(r, name, d), Answer::Brought(Err(e))).next
            == NextView::Fail(e),
{
}

} // verus!
