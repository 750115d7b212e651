//! What is printed of one issue, and of the lists beside it.

use vstd::prelude::*;
use crate::client::ClientView;
use crate::client;
use crate::command::{Cmd, ReadCmd, ReadIssueCmd};
use crate::date;
use crate::fields;
use crate::json::JsonView;
use crate::laws_read;
use crate::laws_shown;
use crate::line::{LineView, StepView};
use crate::lookup;
use crate::report;
use crate::session::NextView;
use crate::session;
use crate::style;
use crate::text;

verus! {

// ---- links ----

/// A linked issue: the words for the link, its id and its summary.
pub struct Linked {
    pub phrase: Seq<char>,
    pub id: Seq<char>,
    pub summary: Seq<char>,
}

/// The linked issue `i` of a group.
pub open spec fn linked(group: JsonView, i: JsonView) -> Linked {
    Linked {
        phrase: laws_shown::told_phrase(group),
        id: laws_read::said(i, "idReadable"@, "?"@),
        summary: laws_read::said(i, "summary"@, ""@),
    }
}

/// The linked issues of the groups `s`, in order.
pub open spec fn all_linked(s: Seq<JsonView>) -> Seq<Linked>
    decreases s.len(),
{
    if s.len() == 0 {
        Seq::empty()
    } else {
        all_linked(s.drop_last()) + s.last().member("issues"@).items().map_values(
            |i: JsonView| linked(s.last(), i),
        )
    }
}

/// Whether `lines` are those of the linked issues `s` from the line `at` on, styles aside.
pub open spec fn prints_linked(lines: Seq<LineView>, at: int, s: Seq<Linked>) -> bool {
    &&& 0 <= at && at + s.len() <= lines.len()
    &&& forall|k: int| 0 <= k < s.len() ==> is_linked(lines[at + k], #[trigger] s[k])
}

/// Three texts in columns.
pub open spec fn three(a: Seq<char>, b: Seq<char>, d: Seq<char>) -> Seq<char> {
    a + "  "@ + b + "  "@ + d
}

/// Whether a line is that of a linked issue: the words, the id, the summary.
pub open spec fn is_linked(l: LineView, i: Linked) -> bool {
    &&& l == LineView::Styled(three(i.phrase, laws_read::bright(i.id), i.summary))
    &&& style::dresses(laws_read::bright(i.id), i.id)
}

proof fn lemma_group(g: JsonView)
    ensures
        report::group_lines(g).len() == g.member("issues"@).items().len(),
        forall|k: int|
            0 <= k < g.member("issues"@).items().len() ==> is_linked(
                #[trigger] report::group_lines(g)[k],
                linked(g, g.member("issues"@).items()[k]),
            ),
{
    let s = g.member("issues"@).items();
    let f = |i: JsonView| report::linked_line(lookup::phrase_of(g), i);
    let h = |i: JsonView| report::linked_line(lookup::phrase_of(g), i)[0];
    assert forall|v: JsonView| #[trigger] f(v) == seq![h(v)] by {
        assert(f(v) =~= seq![h(v)]);
    }
    laws_read::lemma_spread_single(s, f, h);
    assert forall|k: int| 0 <= k < s.len() implies is_linked(
        #[trigger] report::group_lines(g)[k],
        linked(g, s[k]),
    ) by {
        laws_read::lemma_bright(laws_read::said(s[k], "idReadable"@, "?"@));
        assert(report::group_lines(g)[k] == h(s[k]));
    }
}

proof fn lemma_links(s: Seq<JsonView>)
    ensures
        report::link_lines(report::linked_groups(s)).len() == all_linked(s).len(),
        prints_linked(report::link_lines(report::linked_groups(s)), 0, all_linked(s)),
        (report::linked_groups(s).len() == 0) == (all_linked(s).len() == 0),
    decreases s.len(),
{
    let f = |g: JsonView| report::group_lines(g);
    if s.len() > 0 {
        let d = s.drop_last();
        let g = s.last();
        let head = report::linked_groups(d);
        lemma_links(d);
        lemma_group(g);
        let lines = report::link_lines(report::linked_groups(s));
        let own = report::group_lines(g);
        let all = all_linked(s);
        if lookup::has_issues(g) {
            assert(report::linked_groups(s).drop_last() =~= head);
            assert(report::linked_groups(s).last() == g);
            assert(lines == report::link_lines(head) + own);
        } else {
            assert(own =~= Seq::empty());
            assert(lines =~= report::link_lines(head) + own);
        }
        assert forall|k: int| 0 <= k < all.len() implies is_linked(lines[0 + k], #[trigger] all[k]) by {
            if k < all_linked(d).len() {
                assert(all[k] == all_linked(d)[k]);
                assert(lines[k] == report::link_lines(head)[0 + k]);
            } else {
                let n: int = k - all_linked(d).len();
                assert(lines[k] == own[n]);
                assert(all[k] == linked(g, g.member("issues"@).items()[n]));
            }
        }
    }
}

/// To list the links of an issue is to ask for them and to print one line for each issue
/// of each group told, in order; that there is none is said where no group has an issue,
/// and only there.
pub proof fn law_links_are_listed(c: ClientView, id: String, v: JsonView)
    ensures
        ({
            let first = session::begun(c, Cmd::Read(ReadCmd::Issue(ReadIssueCmd::Links { id })));
            let last = laws_read::told(c, first.next, v);
            let all = all_linked(v.items());
            &&& first.lines.len() == 0
            &&& laws_read::asks(
                c,
                first.next,
                "issues/"@ + id@ + "/links"@,
                seq![
                    (
                        "fields"@,
                        "id,direction,linkType(name,sourceToTarget,targetToSource),issues(idReadable,summary)"@,
                    ),
                ],
            )
            &&& last.next == NextView::Done(true)
            &&& all.len() > 0 ==> last.lines.len() == all.len() && prints_linked(last.lines, 0, all)
            &&& all.len() == 0 ==> last.lines == seq![LineView::Plain("no links"@)]
            &&& last.lines == seq![LineView::Plain("no links"@)] ==> all.len() == 0
            &&& all.len() == 0 <==> forall|i: int|
                0 <= i < v.items().len() ==> (#[trigger] v.items()[i]).member(
                    "issues"@,
                ).items().len() == 0
        }),
{
    let q = (
        "fields"@,
        "id,direction,linkType(name,sourceToTarget,targetToSource),issues(idReadable,summary)"@,
    );
    laws_read::lemma_query(q, q, q);
    lemma_links(v.items());
    lemma_linked_anywhere(v.items());
    let first = session::begun(c, Cmd::Read(ReadCmd::Issue(ReadIssueCmd::Links { id })));
    let last = laws_read::told(c, first.next, v);
    let all = all_linked(v.items());
    if all.len() > 0 {
        assert(is_linked(last.lines[0], all[0]));
    }
}

proof fn lemma_linked_anywhere(s: Seq<JsonView>)
    ensures
        all_linked(s).len() == 0 <==> forall|i: int|
            0 <= i < s.len() ==> (#[trigger] s[i]).member("issues"@).items().len() == 0,
    decreases s.len(),
{
    if s.len() > 0 {
        let d = s.drop_last();
        lemma_linked_anywhere(d);
        assert(forall|i: int| 0 <= i < d.len() ==> #[trigger] d[i] == s[i]);
        if all_linked(s).len() == 0 {
            assert forall|i: int| 0 <= i < s.len() implies (#[trigger] s[i]).member(
                "issues"@,
            ).items().len() == 0 by {
                if i < d.len() {
                    assert(d[i] == s[i]);
                }
            }
        } else if forall|i: int|
            0 <= i < s.len() ==> (#[trigger] s[i]).member("issues"@).items().len() == 0 {
            assert(s[s.len() - 1].member("issues"@).items().len() == 0);
            assert forall|i: int| 0 <= i < d.len() implies (#[trigger] d[i]).member(
                "issues"@,
            ).items().len() == 0 by {
                assert(s[i] == d[i]);
            }
        }
    }
}

// ---- an issue ----

/// The command that shows an issue.
pub open spec fn show(id: String, comments: bool, pr: bool) -> Cmd {
    Cmd::Read(ReadCmd::Issue(ReadIssueCmd::Show { id, comments, pr }))
}

/// What is said of each custom field that has a value: its name and its value.
pub open spec fn facts(s: Seq<JsonView>) -> Seq<Seq<char>>
    decreases s.len(),
{
    if s.len() == 0 {
        Seq::empty()
    } else {
        match (s[0].member("name"@), fields::shown(s[0].member("value"@))) {
            (JsonView::Text(n), Some(v)) => seq![n + ":"@ + v] + facts(s.drop_first()),
            _ => facts(s.drop_first()),
        }
    }
}

proof fn lemma_facts_push(s: Seq<JsonView>, f: JsonView)
    ensures
        facts(s.push(f)) == match (f.member("name"@), fields::shown(f.member("value"@))) {
            (JsonView::Text(n), Some(v)) => facts(s).push(n + ":"@ + v),
            _ => facts(s),
        },
    decreases s.len(),
{
    let t = s.push(f);
    if s.len() == 0 {
        assert(t.drop_first() =~= s);
        assert(facts(t.drop_first()) =~= Seq::empty());
        if let (JsonView::Text(n), Some(v)) = (f.member("name"@), fields::shown(f.member("value"@))) {
            assert(facts(t) =~= facts(s).push(n + ":"@ + v));
        }
    } else {
        let d = s.drop_first();
        assert(t[0] == s[0]);
        assert(t.drop_first() =~= d.push(f));
        lemma_facts_push(d, f);
        if let (JsonView::Text(n), Some(v)) = (f.member("name"@), fields::shown(f.member("value"@))) {
            assert(facts(t.drop_first()) == facts(d).push(n + ":"@ + v));
            assert(facts(t) =~= facts(s).push(n + ":"@ + v));
        }
    }
}

proof fn lemma_facts(s: Seq<JsonView>)
    ensures
        report::fields_meta(s) == facts(s),
    decreases s.len(),
{
    if s.len() > 0 {
        let d = s.drop_last();
        lemma_facts(d);
        lemma_facts_push(d, s.last());
        assert(d.push(s.last()) =~= s);
        assert(report::fields_meta(s) =~= facts(s));
    }
}

/// To show an issue is to ask for it; its id and summary are printed, then its fields, its
/// dates and who reported it, its address, and its description where it has one. Its
/// links are asked for next.
pub proof fn law_issue_is_shown(
    c: ClientView,
    id: String,
    comments: bool,
    pr: bool,
    v: JsonView,
    host: Seq<char>,
)
    requires
        c.base == host + "/api"@,
    ensures
        ({
            let first = session::begun(c, show(id, comments, pr));
            let step = laws_read::told(c, first.next, v);
            let rid = laws_read::said(v, "idReadable"@, id@);
            let about = facts(v.member("customFields"@).items()) + seq![
                "created:"@ + date::shown_date(v.member("created"@)),
                "updated:"@ + date::shown_date(v.member("updated"@)),
            ];
            let by = match v.member("reporter"@).member("login"@) {
                JsonView::Text(r) => about.push("by:"@ + r),
                _ => about,
            };
            let d = laws_read::said(v, "description"@, ""@);
            &&& first.lines.len() == 0
            &&& laws_read::asks(
                c,
                first.next,
                "issues/"@ + id@,
                seq![
                    (
                        "fields"@,
                        "idReadable,summary,description,created,updated,reporter(login),customFields(name,value(name,login,text))"@,
                    ),
                ],
            )
            &&& step.lines.len() == (if d.len() > 0 {
                4int
            } else {
                3
            })
            &&& step.lines[0] == LineView::Styled(
                laws_read::bright(rid) + "  "@ + laws_read::said(v, "summary"@, ""@),
            )
            &&& step.lines[1] == LineView::Plain(text::joined(by, "  "@))
            &&& step.lines[2] == LineView::Styled(
                "\u{1b}[4m"@ + "\u{1b}[34m"@ + (host + "/issue/"@ + rid) + "\u{1b}[0m"@,
            )
            &&& d.len() > 0 ==> step.lines[3] == LineView::Plain("\n"@ + text::trimmed_end(d))
            &&& laws_read::asks(
                c,
                step.next,
                "issues/"@ + rid + "/links"@,
                seq![
                    (
                        "fields"@,
                        "id,direction,linkType(name,sourceToTarget,targetToSource),issues(idReadable,summary)"@,
                    ),
                ],
            )
        }),
{
    let a = (
        "fields"@,
        "idReadable,summary,description,created,updated,reporter(login),customFields(name,value(name,login,text))"@,
    );
    let b = (
        "fields"@,
        "id,direction,linkType(name,sourceToTarget,targetToSource),issues(idReadable,summary)"@,
    );
    laws_read::lemma_query(a, a, a);
    laws_read::lemma_query(b, b, b);
    let rid = laws_read::said(v, "idReadable"@, id@);
    laws_read::lemma_bright(rid);
    let s = v.member("customFields"@).items();
    lemma_facts(s);
    let about = facts(s) + seq![
        "created:"@ + date::shown_date(v.member("created"@)),
        "updated:"@ + date::shown_date(v.member("updated"@)),
    ];
    match v.member("reporter"@).member("login"@) {
        JsonView::Text(r) => {
            assert(report::issue_meta(v) =~= about.push("by:"@ + r));
        },
        _ => {
            assert(report::issue_meta(v) =~= about);
        },
    }
    reveal_strlit("/api");
    reveal_strlit("");
    assert("/api"@.is_suffix_of(c.base)) by {
        assert(c.base.skip(c.base.len() - 4) =~= "/api"@);
    }
    assert(client::host_of(c.base) =~= host);
    let w = host + "/issue/"@ + rid;
    assert(style::styled(style::link(), w) =~= "\u{1b}[4m"@ + "\u{1b}[34m"@ + w + "\u{1b}[0m"@);
}

/// Whether a step whose lines about the issue `id` are `n` goes on to its comments where
/// they are wanted, under a heading, and else is the last.
pub open spec fn then_comments(
    c: ClientView,
    step: StepView<NextView>,
    n: int,
    id: Seq<char>,
    comments: bool,
) -> bool {
    if comments {
        &&& step.lines.len() == n + 1
        &&& step.lines.last() == LineView::Plain("\n-- comments --"@)
        &&& laws_read::asks(
            c,
            step.next,
            "issues/"@ + id + "/comments"@,
            seq![("fields"@, "created,text,author(login)"@)],
        )
    } else {
        step.lines.len() == n && step.next == NextView::Done(true)
    }
}

/// Behind an issue its links are shown under a heading, one line for each linked issue,
/// and nothing where there is none. Its pull requests are asked for next where they are
/// wanted, else its comments.
pub proof fn law_links_of_an_issue_are_shown(
    c: ClientView,
    id: String,
    comments: bool,
    pr: bool,
    v: JsonView,
    links: JsonView,
)
    ensures
        ({
            let first = session::begun(c, show(id, comments, pr));
            let shown = laws_read::told(c, first.next, v);
            let step = laws_read::told(c, shown.next, links);
            let rid = laws_read::said(v, "idReadable"@, id@);
            let all = all_linked(links.items());
            let n = if all.len() == 0 {
                0
            } else {
                all.len() + 1
            };
            &&& all.len() > 0 ==> prints_linked(step.lines, 1, all) && step.lines[0]
                == LineView::Plain("\n-- links --"@)
            &&& pr ==> step.lines.len() == n && laws_read::asks(
                c,
                step.next,
                "issues/"@ + rid + "/activities"@,
                seq![
                    ("categories"@, "PullRequestChangeCategory"@),
                    ("fields"@, "added(state(id),url)"@),
                ],
            )
            &&& !pr ==> then_comments(c, step, n as int, rid, comments)
        }),
{
    let a = ("categories"@, "PullRequestChangeCategory"@);
    let b = ("fields"@, "added(state(id),url)"@);
    let d = ("fields"@, "created,text,author(login)"@);
    laws_read::lemma_query(a, b, b);
    laws_read::lemma_query(d, d, d);
    lemma_links(links.items());
    let all = all_linked(links.items());
    let groups = report::linked_groups(links.items());
    let shown = session::links_shown(groups);
    let own = report::link_lines(groups);
    let first = session::begun(c, show(id, comments, pr));
    let step = laws_read::told(c, laws_read::told(c, first.next, v).next, links);
    if all.len() > 0 {
        assert forall|k: int| 0 <= k < all.len() implies is_linked(
            step.lines[1 + k],
            #[trigger] all[k],
        ) by {
            assert(is_linked(own[0 + k], all[k]));
            assert(step.lines[1 + k] == own[k]);
        }
    }
}

/// Whether a line is that of a change of a pull request: its state and its address, styles
/// aside.
pub open spec fn is_change(l: LineView, p: (Seq<char>, Seq<char>)) -> bool {
    l matches LineView::Styled(t) && exists|x: Seq<char>|
        style::dresses(x, p.0) && t == #[trigger] (x + "  "@ + p.1) && x == style::styled(
            style::style_of_state(p.0),
            p.0,
        )
}

/// Behind the links of an issue its pull requests are shown under a heading where they
/// are wanted: one line for each change that tells a state, in order; that there is none
/// is said where there is no such change, and only there. Its comments follow where they
/// are wanted.
pub proof fn law_pull_requests_are_shown(
    c: ClientView,
    id: String,
    comments: bool,
    v: JsonView,
    links: JsonView,
    activities: JsonView,
)
    ensures
        ({
            let first = session::begun(c, show(id, comments, true));
            let shown = laws_read::told(c, first.next, v);
            let linked = laws_read::told(c, shown.next, links);
            let step = laws_read::told(c, linked.next, activities);
            let rid = laws_read::said(v, "idReadable"@, id@);
            let all = laws_shown::activity_changes(activities.items());
            &&& step.lines[0] == LineView::Plain("\n-- pull requests --"@)
            &&& all.len() == 0 <==> step.lines[1] == LineView::Plain("no pull requests"@)
            &&& forall|k: int| 0 <= k < all.len() ==> is_change(step.lines[1 + k], #[trigger] all[k])
            &&& then_comments(
                c,
                step,
                if all.len() == 0 {
                    2
                } else {
                    1 + all.len() as int
                },
                rid,
                comments,
            )
        }),
{
    let d = ("fields"@, "created,text,author(login)"@);
    laws_read::lemma_query(d, d, d);
    let s = lookup::pr_changes(lookup::all_added(activities.items()));
    let all = laws_shown::activity_changes(activities.items());
    laws_shown::law_changes_are_read_in_order(activities);
    let f = |p: (Seq<char>, Option<Seq<char>>)| laws_shown::with_address(p);
    assert(s.map_values(f) == all);
    let lines = report::change_lines(s);
    let first = session::begun(c, show(id, comments, true));
    let linked = laws_read::told(c, laws_read::told(c, first.next, v).next, links);
    let step = laws_read::told(c, linked.next, activities);
    assert forall|k: int| 0 <= k < all.len() implies is_change(step.lines[1 + k], #[trigger] all[k]) by {
        assert(all[k] == f(s[k]));
        assert(step.lines[1 + k] == report::change_line(s[k]));
        style::law_styles_leave_the_text(style::style_of_state(s[k].0), s[k].0);
        let x = style::styled(style::style_of_state(all[k].0), all[k].0);
        assert(step.lines[1 + k] == LineView::Styled(x + "  "@ + all[k].1));
    }
    if all.len() > 0 {
        assert(is_change(step.lines[1], all[0]));
    } else {
        assert(step.lines[1] == LineView::Plain("no pull requests"@));
    }
}

} // verus!
