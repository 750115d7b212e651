//! How what the server tells is shown, line by line.

use vstd::prelude::*;
use crate::client::{Client, ClientView};
use crate::client;
use crate::date;
use crate::failure::Failure;
use crate::fields;
use crate::json::{Json, JsonView};
use crate::json;
use crate::line::{Line, LineView};
use crate::line;
use crate::lookup;
use crate::number;
use crate::sorted::TextMap;
use crate::sorted;
use crate::style;
use crate::text;

verus! {

// ---- meaning ----

/// The lines that `f` gives for the values `s`, those of one behind those of the
/// other.
pub open spec fn spread(s: Seq<JsonView>, f: spec_fn(JsonView) -> Seq<LineView>) -> Seq<LineView>
    decreases s.len(),
{
    if s.len() == 0 {
        Seq::empty()
    } else {
        spread(s.drop_last(), f) + f(s.last())
    }
}

/// The lines that `f` gives for the values `s`; the line `none` where there is no
/// value.
pub open spec fn spread_or(
    s: Seq<JsonView>,
    none: Seq<char>,
    f: spec_fn(JsonView) -> Seq<LineView>,
) -> Seq<LineView> {
    if s.len() == 0 {
        line::only(none)
    } else {
        spread(s, f)
    }
}

/// The members `first` and `second` of `v`, in one line.
pub open spec fn two_members(
    v: JsonView,
    first: Seq<char>,
    second: Seq<char>,
    other: Seq<char>,
) -> Seq<char> {
    v.text_or(first, "?"@) + "  "@ + v.text_or(second, other)
}

/// The text that is not empty of the member `key`.
pub open spec fn some_text(v: JsonView, key: Seq<char>) -> Option<Seq<char>> {
    match v.member(key).text() {
        Some(t) => if t.len() > 0 {
            Some(t)
        } else {
            None
        },
        None => None,
    }
}

/// The state of an issue, or a dash.
pub open spec fn state_of(issue: JsonView) -> Seq<char> {
    text::or_text(fields::shown_field(issue, "State"@), "-"@)
}

/// The priority of an issue, or a dash.
pub open spec fn priority_of(issue: JsonView) -> Seq<char> {
    text::or_text(fields::shown_field(issue, "Priority"@), "-"@)
}

/// The line of an issue: its id, state, priority and summary.
pub open spec fn issue_line(i: JsonView) -> Seq<char> {
    style::styled(style::bold_colored(style::Color::Cyan), i.text_or("idReadable"@, "?"@)) + "  "@
        + style::styled(style::style_of_state(state_of(i)), state_of(i)) + "  "@ + style::styled(
        style::style_of_priority(priority_of(i)),
        priority_of(i),
    ) + "  "@ + i.text_or("summary"@, ""@)
}

/// The lines `s`, each moved in a little.
pub open spec fn indented(s: Seq<Seq<char>>) -> Seq<LineView> {
    s.map_values(|t: Seq<char>| LineView::Plain("  "@ + t))
}

/// The description of an issue, moved in a little, and an empty line behind it.
pub open spec fn description_lines(i: JsonView) -> Seq<LineView> {
    match some_text(i, "description"@) {
        Some(d) => indented(text::lines_of(text::trimmed_end(d))) + line::only(""@),
        None => Seq::empty(),
    }
}

/// The lines of an issue in a list, with its description where `full` says so.
pub open spec fn issue_lines(i: JsonView, full: bool) -> Seq<LineView> {
    let head = seq![LineView::Styled(issue_line(i))];
    if full {
        head + description_lines(i)
    } else {
        head
    }
}

/// The issues whose verdict is true.
pub open spec fn kept(s: Seq<JsonView>, verdicts: Seq<bool>) -> Seq<JsonView>
    decreases s.len(),
{
    if s.len() == 0 {
        Seq::empty()
    } else if s.len() <= verdicts.len() && verdicts[s.len() - 1] {
        kept(s.drop_last(), verdicts).push(s.last())
    } else {
        kept(s.drop_last(), verdicts)
    }
}

/// The list of the issues `rows`, out of `fetched` that the server told when asked for
/// `limit` at most.
pub open spec fn listing(rows: Seq<JsonView>, fetched: nat, limit: nat, full: bool) -> Seq<LineView> {
    if rows.len() == 0 {
        line::only("no matches"@)
    } else {
        spread(rows, |i: JsonView| issue_lines(i, full)) + (if fetched == limit {
            line::only(
                "# limit "@ + number::decimal(limit) + " reached; refine query or raise -n"@,
            )
        } else {
            Seq::empty()
        })
    }
}

/// The name and the value of a custom field; nothing where it has none.
pub open spec fn field_meta(f: JsonView) -> Seq<Seq<char>> {
    match (f.member("name"@).text(), fields::shown(f.member("value"@))) {
        (Some(n), Some(v)) => seq![n + ":"@ + v],
        _ => Seq::empty(),
    }
}

/// The names and the values of the custom fields `s`.
pub open spec fn fields_meta(s: Seq<JsonView>) -> Seq<Seq<char>>
    decreases s.len(),
{
    if s.len() == 0 {
        Seq::empty()
    } else {
        fields_meta(s.drop_last()) + field_meta(s.last())
    }
}

/// What is told about an issue beside its text: its fields, its dates and who
/// reported it.
pub open spec fn issue_meta(i: JsonView) -> Seq<Seq<char>> {
    fields_meta(i.member("customFields"@).items()).push(
        "created:"@ + date::shown_date(i.member("created"@)),
    ).push("updated:"@ + date::shown_date(i.member("updated"@))) + (match i.member(
        "reporter"@,
    ).member("login"@).text() {
        Some(r) => seq!["by:"@ + r],
        None => Seq::empty(),
    })
}

/// The readable id of an issue that was asked for as `id`.
pub open spec fn readable_id(i: JsonView, id: Seq<char>) -> Seq<char> {
    i.text_or("idReadable"@, id)
}

/// The issue that was asked for as `id`: its id and summary, what is told about it, its
/// address and its description.
pub open spec fn issue_shown(c: ClientView, i: JsonView, id: Seq<char>) -> Seq<LineView> {
    seq![
        LineView::Styled(
            style::styled(style::bold_colored(style::Color::Cyan), readable_id(i, id)) + "  "@
                + i.text_or("summary"@, ""@),
        ),
        LineView::Plain(text::joined(issue_meta(i), "  "@)),
        LineView::Styled(
            style::styled(
                style::link(),
                client::host_of(c.base) + "/issue/"@ + readable_id(i, id),
            ),
        ),
    ] + (match some_text(i, "description"@) {
        Some(d) => line::only("\n"@ + text::trimmed_end(d)),
        None => Seq::empty(),
    })
}

/// The groups of links that have issues.
pub open spec fn linked_groups(s: Seq<JsonView>) -> Seq<JsonView>
    decreases s.len(),
{
    if s.len() == 0 {
        Seq::empty()
    } else if lookup::has_issues(s.last()) {
        linked_groups(s.drop_last()).push(s.last())
    } else {
        linked_groups(s.drop_last())
    }
}

/// The line of a linked issue.
pub open spec fn linked_line(phrase: Seq<char>, i: JsonView) -> Seq<LineView> {
    seq![
        LineView::Styled(
            phrase + "  "@ + style::styled(
                style::bold_colored(style::Color::Cyan),
                i.text_or("idReadable"@, "?"@),
            ) + "  "@ + i.text_or("summary"@, ""@),
        ),
    ]
}

/// The lines of a group of links, one linked issue each.
pub open spec fn group_lines(g: JsonView) -> Seq<LineView> {
    spread(g.member("issues"@).items(), |i: JsonView| linked_line(lookup::phrase_of(g), i))
}

/// The lines of the groups of links `s`.
pub open spec fn link_lines(s: Seq<JsonView>) -> Seq<LineView> {
    spread(s, |g: JsonView| group_lines(g))
}

/// The line of a change of a pull request.
pub open spec fn change_line(p: (Seq<char>, Option<Seq<char>>)) -> LineView {
    LineView::Styled(
        style::styled(style::style_of_state(p.0), p.0) + "  "@ + text::or_text(p.1, ""@),
    )
}

/// The pull requests of an issue, under a heading.
pub open spec fn change_lines(s: Seq<(Seq<char>, Option<Seq<char>>)>) -> Seq<LineView> {
    line::only("\n-- pull requests --"@) + (if s.len() == 0 {
        line::only("no pull requests"@)
    } else {
        s.map_values(|p: (Seq<char>, Option<Seq<char>>)| change_line(p))
    })
}

/// The line of a comment: when and by whom it was written, and its text.
pub open spec fn comment_line(c: JsonView) -> Seq<LineView> {
    line::only(
        "["@ + date::shown_date(c.member("created"@)) + " "@ + c.member("author"@).text_or(
            "login"@,
            "?"@,
        ) + "] "@ + text::trimmed_end(c.text_or("text"@, ""@)),
    )
}

/// The list of comments.
pub open spec fn comment_lines(comments: JsonView) -> Seq<LineView> {
    spread_or(comments.items(), "no comments"@, |c: JsonView| comment_line(c))
}

/// The list of tags, one name each.
pub open spec fn tag_lines(tags: JsonView) -> Seq<LineView> {
    spread_or(tags.items(), "no tags"@, |t: JsonView| line::only(t.text_or("name"@, "?"@)))
}

/// The line of a project; none where it is archived.
pub open spec fn project_line(p: JsonView) -> Seq<LineView> {
    if p.member("archived"@).truth() == Some(true) {
        Seq::empty()
    } else {
        line::only(two_members(p, "shortName"@, "name"@, ""@))
    }
}

/// The list of projects, but for those archived.
pub open spec fn project_lines(projects: JsonView) -> Seq<LineView> {
    spread(projects.items(), |p: JsonView| project_line(p))
}

/// The list of users.
pub open spec fn user_lines(users: JsonView) -> Seq<LineView> {
    spread_or(
        users.items(),
        "no matches"@,
        |u: JsonView| line::only(two_members(u, "login"@, "name"@, ""@)),
    )
}

/// The line of the user who is logged in.
pub open spec fn me_line(u: JsonView) -> Seq<char> {
    two_members(u, "login"@, "name"@, ""@) + "  "@ + u.text_or("email"@, ""@)
}

/// The size of an attachment.
pub open spec fn size_of(a: JsonView) -> int {
    match a.member("size"@).whole() {
        Some(n) => n as int,
        None => 0,
    }
}

/// The list of attachments, one name and size each.
pub open spec fn attachment_lines(s: Seq<JsonView>) -> Seq<LineView> {
    spread(
        s,
        |a: JsonView|
            line::only(a.text_or("name"@, "?"@) + "  "@ + number::signed(size_of(a))),
    )
}

/// The names of the values `s` that are not archived.
pub open spec fn value_names(s: Seq<JsonView>) -> Seq<Seq<char>>
    decreases s.len(),
{
    if s.len() == 0 {
        Seq::empty()
    } else {
        let head = value_names(s.drop_last());
        match (s.last().member("archived"@).truth() == Some(true), s.last().member("name"@).text()) {
            (false, Some(n)) => head.push(n),
            _ => head,
        }
    }
}

/// The line of a field of a project: its name, marked where it is required, its type
/// and the values it allows.
pub open spec fn field_line(f: JsonView) -> Seq<LineView> {
    let field = f.member("field"@);
    let names = value_names(f.member("bundle"@).member("values"@).items());
    let head = field.text_or("name"@, "?"@) + (if f.member("canBeEmpty"@).truth() == Some(false) {
        "*"@
    } else {
        ""@
    }) + " ("@ + field.member("fieldType"@).text_or("valueType"@, "?"@) + ")"@;
    line::only(
        if names.len() == 0 {
            head
        } else {
            head + ": "@ + text::joined(names, ", "@)
        },
    )
}

/// The fields `s` of the project `short`.
pub open spec fn field_lines(short: Seq<char>, s: Seq<JsonView>) -> Seq<LineView> {
    line::only("# "@ + short + ": * = required"@) + spread(s, |f: JsonView| field_line(f))
}

/// The models of the borrowed values `s`.
pub open spec fn refs(s: Seq<&Json>) -> Seq<JsonView> {
    s.map_values(|f: &Json| f@)
}

/// The names of those of the fields `s` that have a value.
pub open spec fn names_seen(s: Seq<JsonView>) -> Set<Seq<char>>
    decreases s.len(),
{
    if s.len() == 0 {
        Set::empty()
    } else {
        let head = names_seen(s.drop_last());
        match (s.last().member("name"@).text(), fields::shown(s.last().member("value"@))) {
            (Some(n), Some(_)) => head.insert(n),
            _ => head,
        }
    }
}

/// The values of those of the fields `s` that have the name `name`.
pub open spec fn values_seen(s: Seq<JsonView>, name: Seq<char>) -> Set<Seq<char>>
    decreases s.len(),
{
    if s.len() == 0 {
        Set::empty()
    } else {
        let head = values_seen(s.drop_last(), name);
        match (s.last().member("name"@).text(), fields::shown(s.last().member("value"@))) {
            (Some(n), Some(v)) => if n == name {
                head.insert(v)
            } else {
                head
            },
            _ => head,
        }
    }
}

/// The line of the field `name` with the values it has among the fields `s`.
pub open spec fn seen_line(s: Seq<JsonView>, name: Seq<char>) -> LineView {
    LineView::Plain(
        name + ": "@ + text::joined(sorted::in_order(values_seen(s, name)), ", "@),
    )
}

/// The fields of the project `short` as they are seen on some of its issues; a message
/// where none is.
pub open spec fn seen_lines(short: Seq<char>, issues: JsonView) -> Result<Seq<LineView>, Seq<char>> {
    let all = fields::all_fields(issues.items());
    let names = names_seen(all);
    if names == Set::<Seq<char>>::empty() {
        Err(
            "no field info available for "@ + short
                + " (no admin access, no issues to sample)"@,
        )
    } else {
        Ok(
            line::only(
                "# "@ + short
                    + ": values observed on recent issues (field config not readable with this token)"@,
            ) + sorted::in_order(names).map_values(|n: Seq<char>| seen_line(all, n)),
        )
    }
}

// ---- laws ----

/// The issues that are kept are those whose verdict is true.
pub proof fn law_kept_are_the_true_ones(s: Seq<JsonView>, verdicts: Seq<bool>, v: JsonView)
    requires
        s.len() <= verdicts.len(),
    ensures
        kept(s, verdicts).contains(v) <==> exists|i: int|
            0 <= i < s.len() && verdicts[i] && #[trigger] s[i] == v,
    decreases s.len(),
{
    if s.len() > 0 {
        let head = s.drop_last();
        law_kept_are_the_true_ones(head, verdicts, v);
        let k = kept(head, verdicts);
        if kept(s, verdicts).contains(v) {
            if k.contains(v) {
                let i = choose|i: int| 0 <= i < head.len() && verdicts[i] && #[trigger] head[i] == v;
                assert(s[i] == v);
            } else {
                let i = choose|i: int|
                    0 <= i < kept(s, verdicts).len() && kept(s, verdicts)[i] == v;
                assert(i == k.len());
                assert(s[s.len() - 1] == v);
            }
        }
        if exists|i: int| 0 <= i < s.len() && verdicts[i] && #[trigger] s[i] == v {
            let i = choose|i: int| 0 <= i < s.len() && verdicts[i] && #[trigger] s[i] == v;
            if i < head.len() {
                assert(head[i] == v);
                let n = choose|n: int| 0 <= n < k.len() && k[n] == v;
                assert(kept(s, verdicts)[n] == v);
            } else {
                assert(kept(s, verdicts)[k.len() as int] == v);
            }
        }
    }
}

/// Every group of links that is shown has an issue, and none that has one is left out.
pub proof fn law_shown_groups_have_issues(s: Seq<JsonView>, g: JsonView)
    ensures
        linked_groups(s).contains(g) <==> s.contains(g) && lookup::has_issues(g),
    decreases s.len(),
{
    if s.len() > 0 {
        let head = s.drop_last();
        law_shown_groups_have_issues(head, g);
        let k = linked_groups(head);
        assert(s =~= head.push(s.last()));
        if lookup::has_issues(s.last()) {
            assert(linked_groups(s) =~= k.push(s.last()));
            if linked_groups(s).contains(g) && !k.contains(g) {
                assert(s[s.len() - 1] == g);
            }
            if k.contains(g) {
                let n = choose|n: int| 0 <= n < k.len() && k[n] == g;
                assert(linked_groups(s)[n] == g);
            }
            if s.last() == g {
                assert(linked_groups(s)[k.len() as int] == g);
            }
        }
        if head.contains(g) {
            let n = choose|n: int| 0 <= n < head.len() && head[n] == g;
            assert(s[n] == g);
        }
        if s.contains(g) && !head.contains(g) {
            let n = choose|n: int| 0 <= n < s.len() && s[n] == g;
            if n < head.len() {
                assert(head[n] == g);
            }
            assert(g == s.last());
        }
    }
}

// ---- operations ----

/// The lines that `g` gives for the values `items`, those of one behind those of the
/// other.
fn spread_lines<G: Fn(&Json) -> Vec<Line>>(
    items: &[Json],
    g: G,
    Ghost(f): Ghost<spec_fn(JsonView) -> Seq<LineView>>,
) -> (r: Vec<Line>)
    requires
        forall|v: &Json| call_requires(g, (v,)),
        forall|v: &Json, l: Vec<Line>| call_ensures(g, (v,), l) ==> line::views(l@) == f(v@),
    ensures
        line::views(r@) == spread(json::array_view(items@), f),
{
    let ghost all = json::array_view(items@);
    let mut out = line::nothing();
    let mut i: usize = 0;
    assert(all.take(0) =~= Seq::empty());
    while i < items.len()
        invariant
            i <= items@.len(),
            all == json::array_view(items@),
            forall|v: &Json| call_requires(g, (v,)),
            forall|v: &Json, l: Vec<Line>| call_ensures(g, (v,), l) ==> line::views(l@) == f(v@),
            line::views(out@) == spread(all.take(i as int), f),
        decreases items@.len() - i,
    {
        assert(all.take(i + 1).drop_last() =~= all.take(i as int));
        assert(all.take(i + 1).last() == items@[i as int]@);
        let more = g(&items[i]);
        out = line::both(out, more);
        i += 1;
    }
    assert(all.take(all.len() as int) =~= all);
    out
}

/// The lines that `g` gives for the values `items`; the line `none` where there is no
/// value.
fn spread_lines_or<G: Fn(&Json) -> Vec<Line>>(
    items: &[Json],
    none: &str,
    g: G,
    Ghost(f): Ghost<spec_fn(JsonView) -> Seq<LineView>>,
) -> (r: Vec<Line>)
    requires
        forall|v: &Json| call_requires(g, (v,)),
        forall|v: &Json, l: Vec<Line>| call_ensures(g, (v,), l) ==> line::views(l@) == f(v@),
    ensures
        line::views(r@) == spread_or(json::array_view(items@), none@, f),
{
    if items.len() == 0 {
        line::just(none.to_owned())
    } else {
        spread_lines(items, g, Ghost(f))
    }
}

/// The members `first` and `second` of `v`, in one line.
pub fn members_line(v: &Json, first: &str, second: &str, other: &str) -> (r: String)
    ensures
        r@ == two_members(v@, first@, second@, other@),
{
    text::cat3(v.text_or(first, "?"), "  ", v.text_or(second, other))
}

/// The text that is not empty of the member `key`.
fn filled_text<'a>(v: &'a Json, key: &str) -> (r: Option<&'a str>)
    ensures
        text::opt_str(r) == some_text(v@, key@),
{
    match v.member(key).as_str() {
        Some(t) => if t.is_empty() {
            None
        } else {
            Some(t)
        },
        None => None,
    }
}

/// The custom field `name` of an issue, or a dash.
fn field_or_dash(i: &Json, name: &str) -> (r: String)
    ensures
        r@ == text::or_text(fields::shown_field(i@, name@), "-"@),
{
    match fields::cf_get(i, name) {
        Some(t) => t,
        None => "-".to_owned(),
    }
}

/// The lines of an issue in a list, with its description where `full` says so.
pub fn show_row(i: &Json, full: bool) -> (r: Vec<Line>)
    ensures
        line::views(r@) == issue_lines(i@, full),
{
    let state = field_or_dash(i, "State");
    let prio = field_or_dash(i, "Priority");
    let id = style::paint(style::id_style(), i.text_or("idReadable", "?"));
    let mut t = text::cat3(
        id.as_str(),
        "  ",
        style::paint(style::state_style(state.as_str()), state.as_str()).as_str(),
    );
    t.append("  ");
    t.append(style::paint(style::prio_style(prio.as_str()), prio.as_str()).as_str());
    t.append("  ");
    t.append(i.text_or("summary", ""));
    assert(t@ == issue_line(i@));
    let mut out = line::nothing();
    line::put(&mut out, Line::Styled(t));
    assert(line::views(out@) =~= seq![LineView::Styled(issue_line(i@))]);
    if full {
        if let Some(d) = filled_text(i, "description") {
            let all = text::lines(text::trim_end(d).as_str());
            let ghost head = line::views(out@);
            let ghost told = text::texts(all@);
            let mut k: usize = 0;
            assert(head + indented(told).take(0) =~= head);
            while k < all.len()
                invariant
                    k <= all@.len(),
                    told == text::texts(all@),
                    line::views(out@) == head + indented(told).take(k as int),
                decreases all@.len() - k,
            {
                line::put(&mut out, Line::Plain(text::cat("  ", all[k].as_str())));
                assert(indented(told).take(k + 1) =~= indented(told).take(k as int).push(
                    indented(told)[k as int],
                ));
                k += 1;
                assert(line::views(out@) =~= head + indented(told).take(k as int));
            }
            assert(indented(told).take(told.len() as int) =~= indented(told));
            line::put(&mut out, Line::Plain("".to_owned()));
        }
        assert(line::views(out@) =~= issue_lines(i@, full));
    }
    out
}

/// The issues of a list whose verdict is true.
pub fn kept_rows(issues: &[Json], verdicts: &Vec<bool>) -> (r: Vec<Json>)
    ensures
        json::array_view(r@) == kept(json::array_view(issues@), verdicts@),
{
    let ghost all = json::array_view(issues@);
    let mut out: Vec<Json> = Vec::new();
    let mut i: usize = 0;
    assert(all.take(0) =~= Seq::empty());
    assert(json::array_view(out@) =~= Seq::empty());
    while i < issues.len()
        invariant
            i <= issues@.len(),
            all == json::array_view(issues@),
            json::array_view(out@) == kept(all.take(i as int), verdicts@),
        decreases issues@.len() - i,
    {
        let ghost before = out@;
        assert(all.take(i + 1).drop_last() =~= all.take(i as int));
        assert(all.take(i + 1).last() == issues@[i as int]@);
        if i < verdicts.len() && verdicts[i] {
            let v = issues[i].copy();
            out.push(v);
            assert(json::array_view(out@) =~= json::array_view(before).push(v@));
        }
        i += 1;
    }
    assert(all.take(all.len() as int) =~= all);
    out
}

/// The list of the issues `rows`, out of `fetched` that the server told when asked for
/// `limit` at most.
pub fn show_rows(rows: &[Json], fetched: usize, limit: usize, full: bool) -> (r: Vec<Line>)
    ensures
        line::views(r@) == listing(
            json::array_view(rows@),
            fetched as nat,
            limit as nat,
            full,
        ),
{
    if rows.len() == 0 {
        return line::just("no matches".to_owned());
    }
    let row = |i: &Json| -> (l: Vec<Line>)
        ensures
            line::views(l@) == issue_lines(i@, full),
        { show_row(i, full) };
    let mut out = spread_lines(rows, row, Ghost(|i: JsonView| issue_lines(i, full)));
    let ghost head = line::views(out@);
    if fetched == limit {
        line::put(
            &mut out,
            Line::Plain(
                text::cat3(
                    "# limit ",
                    number::decimal_text(limit as u128).as_str(),
                    " reached; refine query or raise -n",
                ),
            ),
        );
    }
    assert(line::views(out@) =~= listing(
        json::array_view(rows@),
        fetched as nat,
        limit as nat,
        full,
    ));
    out
}

/// What is told about an issue beside its text.
fn meta(i: &Json) -> (r: Vec<String>)
    ensures
        text::texts(r@) == issue_meta(i@),
{
    let items = i.member("customFields").items();
    let ghost all = json::array_view(items@);
    let mut out: Vec<String> = Vec::new();
    let mut k: usize = 0;
    assert(all.take(0) =~= Seq::empty());
    assert(text::texts(out@) =~= Seq::empty());
    while k < items.len()
        invariant
            k <= items@.len(),
            all == json::array_view(items@),
            text::texts(out@) == fields_meta(all.take(k as int)),
        decreases items@.len() - k,
    {
        let ghost before = out@;
        assert(all.take(k + 1).drop_last() =~= all.take(k as int));
        assert(all.take(k + 1).last() == items@[k as int]@);
        if let (Some(n), Some(v)) = (
            items[k].member("name").as_str(),
            fields::cf_value(items[k].member("value")),
        ) {
            let t = text::cat3(n, ":", v.as_str());
            out.push(t);
            assert(text::texts(out@) =~= text::texts(before).push(t@));
        }
        k += 1;
        assert(text::texts(out@) =~= fields_meta(all.take(k as int)));
    }
    assert(all.take(all.len() as int) =~= all);
    let created = text::cat("created:", date::date(i.member("created")).as_str());
    let updated = text::cat("updated:", date::date(i.member("updated")).as_str());
    out.push(created);
    out.push(updated);
    if let Some(r) = i.member("reporter").member("login").as_str() {
        out.push(text::cat("by:", r));
    }
    assert(text::texts(out@) =~= issue_meta(i@));
    out
}

/// The issue that was asked for as `id`.
pub fn show_issue(c: &Client, i: &Json, id: &str) -> (r: Vec<Line>)
    ensures
        line::views(r@) == issue_shown(c@, i@, id@),
{
    let readable = i.text_or("idReadable", id);
    let mut out = line::nothing();
    line::put(
        &mut out,
        Line::Styled(
            text::cat3(
                style::paint(style::id_style(), readable).as_str(),
                "  ",
                i.text_or("summary", ""),
            ),
        ),
    );
    line::put(&mut out, Line::Plain(text::join(&meta(i), "  ")));
    line::put(
        &mut out,
        Line::Styled(style::paint(style::link_style(), c.web_url(readable).as_str())),
    );
    if let Some(d) = filled_text(i, "description") {
        line::put(&mut out, Line::Plain(text::cat("\n", text::trim_end(d).as_str())));
    }
    assert(line::views(out@) =~= issue_shown(c@, i@, id@));
    out
}

/// The groups of links that have issues.
pub fn groups_with_issues(links: &Json) -> (r: Vec<Json>)
    ensures
        json::array_view(r@) == linked_groups(links@.items()),
{
    let items = links.items();
    let ghost all = json::array_view(items@);
    let mut out: Vec<Json> = Vec::new();
    let mut i: usize = 0;
    assert(all.take(0) =~= Seq::empty());
    assert(json::array_view(out@) =~= Seq::empty());
    while i < items.len()
        invariant
            i <= items@.len(),
            all == json::array_view(items@),
            json::array_view(out@) == linked_groups(all.take(i as int)),
        decreases items@.len() - i,
    {
        let ghost before = out@;
        assert(all.take(i + 1).drop_last() =~= all.take(i as int));
        assert(all.take(i + 1).last() == items@[i as int]@);
        if items[i].member("issues").items().len() > 0 {
            let v = items[i].copy();
            out.push(v);
            assert(json::array_view(out@) =~= json::array_view(before).push(v@));
        }
        i += 1;
    }
    assert(all.take(all.len() as int) =~= all);
    out
}

/// The line of a linked issue.
fn show_linked(phrase: &str, i: &Json) -> (r: Vec<Line>)
    ensures
        line::views(r@) == linked_line(phrase@, i@),
{
    let mut t = text::cat3(
        phrase,
        "  ",
        style::paint(style::id_style(), i.text_or("idReadable", "?")).as_str(),
    );
    t.append("  ");
    t.append(i.text_or("summary", ""));
    let mut out = line::nothing();
    line::put(&mut out, Line::Styled(t));
    assert(line::views(out@) =~= linked_line(phrase@, i@));
    out
}

/// The lines of a group of links, one linked issue each.
fn show_group(g: &Json) -> (r: Vec<Line>)
    ensures
        line::views(r@) == group_lines(g@),
{
    let phrase = lookup::link_phrase(g);
    let one = |i: &Json| -> (l: Vec<Line>)
        ensures
            line::views(l@) == linked_line(phrase@, i@),
        { show_linked(phrase, i) };
    spread_lines(
        g.member("issues").items(),
        one,
        Ghost(|i: JsonView| linked_line(lookup::phrase_of(g@), i)),
    )
}

/// The lines of groups of links, one linked issue each.
pub fn show_link_groups(groups: &[Json]) -> (r: Vec<Line>)
    ensures
        line::views(r@) == link_lines(json::array_view(groups@)),
{
    spread_lines(groups, show_group, Ghost(|g: JsonView| group_lines(g)))
}

/// The pull requests of an issue, under a heading.
pub fn show_changes(changes: &[(String, Option<String>)]) -> (r: Vec<Line>)
    ensures
        line::views(r@) == change_lines(lookup::change_texts(changes@)),
{
    let ghost all = lookup::change_texts(changes@);
    let ghost told = all.map_values(|p: (Seq<char>, Option<Seq<char>>)| change_line(p));
    let ghost head = line::only("\n-- pull requests --"@);
    let mut out = line::just("\n-- pull requests --".to_owned());
    if changes.len() == 0 {
        line::put(&mut out, Line::Plain("no pull requests".to_owned()));
        assert(line::views(out@) =~= change_lines(all));
        return out;
    }
    let mut i: usize = 0;
    assert(head + told.take(0) =~= head);
    while i < changes.len()
        invariant
            i <= changes@.len(),
            all == lookup::change_texts(changes@),
            told == all.map_values(|p: (Seq<char>, Option<Seq<char>>)| change_line(p)),
            line::views(out@) == head + told.take(i as int),
        decreases changes@.len() - i,
    {
        let state = changes[i].0.as_str();
        let t = text::cat3(
            style::paint(style::state_style(state), state).as_str(),
            "  ",
            match &changes[i].1 {
                Some(u) => u.as_str(),
                None => "",
            },
        );
        line::put(&mut out, Line::Styled(t));
        assert(told.take(i + 1) =~= told.take(i as int).push(told[i as int]));
        i += 1;
        assert(line::views(out@) =~= head + told.take(i as int));
    }
    assert(told.take(all.len() as int) =~= told);
    out
}

/// The line of a comment.
fn show_comment(c: &Json) -> (r: Vec<Line>)
    ensures
        line::views(r@) == comment_line(c@),
{
    let mut t = text::cat3("[", date::date(c.member("created")).as_str(), " ");
    t.append(c.member("author").text_or("login", "?"));
    t.append("] ");
    t.append(text::trim_end(c.text_or("text", "")).as_str());
    line::just(t)
}

/// The list of comments.
pub fn show_comments(comments: &Json) -> (r: Vec<Line>)
    ensures
        line::views(r@) == comment_lines(comments@),
{
    spread_lines_or(
        comments.items(),
        "no comments",
        show_comment,
        Ghost(|c: JsonView| comment_line(c)),
    )
}

/// The list of tags, one name each.
pub fn show_tags(tags: &Json) -> (r: Vec<Line>)
    ensures
        line::views(r@) == tag_lines(tags@),
{
    let one = |t: &Json| -> (l: Vec<Line>)
        ensures
            line::views(l@) == line::only(t@.text_or("name"@, "?"@)),
        { line::just(t.text_or("name", "?").to_owned()) };
    spread_lines_or(
        tags.items(),
        "no tags",
        one,
        Ghost(|t: JsonView| line::only(t.text_or("name"@, "?"@))),
    )
}

/// The line of a project; none where it is archived.
fn show_project(p: &Json) -> (r: Vec<Line>)
    ensures
        line::views(r@) == project_line(p@),
{
    let archived = match p.member("archived").as_bool() {
        Some(b) => b,
        None => false,
    };
    if archived {
        line::nothing()
    } else {
        line::just(members_line(p, "shortName", "name", ""))
    }
}

/// The list of projects, but for those archived.
pub fn show_projects(projects: &Json) -> (r: Vec<Line>)
    ensures
        line::views(r@) == project_lines(projects@),
{
    spread_lines(projects.items(), show_project, Ghost(|p: JsonView| project_line(p)))
}

/// The list of users.
pub fn show_users(users: &Json) -> (r: Vec<Line>)
    ensures
        line::views(r@) == user_lines(users@),
{
    let one = |u: &Json| -> (l: Vec<Line>)
        ensures
            line::views(l@) == line::only(two_members(u@, "login"@, "name"@, ""@)),
        { line::just(members_line(u, "login", "name", "")) };
    spread_lines_or(
        users.items(),
        "no matches",
        one,
        Ghost(|u: JsonView| line::only(two_members(u, "login"@, "name"@, ""@))),
    )
}

/// The line of the user who is logged in.
pub fn show_me(u: &Json) -> (r: Vec<Line>)
    ensures
        line::views(r@) == line::only(me_line(u@)),
{
    line::just(
        text::cat3(
            members_line(u, "login", "name", "").as_str(),
            "  ",
            u.text_or("email", ""),
        ),
    )
}

/// The list of attachments, one name and size each.
pub fn show_attachments(list: &[Json]) -> (r: Vec<Line>)
    ensures
        line::views(r@) == attachment_lines(json::array_view(list@)),
{
    let one = |a: &Json| -> (l: Vec<Line>)
        ensures
            line::views(l@) == line::only(
                a@.text_or("name"@, "?"@) + "  "@ + number::signed(size_of(a@)),
            ),
        {
            let size = match a.member("size").as_i64() {
                Some(n) => n,
                None => 0,
            };
            line::just(
                text::cat3(
                    a.text_or("name", "?"),
                    "  ",
                    number::signed_text(size as i128).as_str(),
                ),
            )
        };
    spread_lines(
        list,
        one,
        Ghost(
            |a: JsonView|
                line::only(a.text_or("name"@, "?"@) + "  "@ + number::signed(size_of(a))),
        ),
    )
}

/// The names of the values `values` that are not archived.
fn names_of_values(values: &[Json]) -> (r: Vec<String>)
    ensures
        text::texts(r@) == value_names(json::array_view(values@)),
{
    let ghost all = json::array_view(values@);
    let mut out: Vec<String> = Vec::new();
    let mut i: usize = 0;
    assert(all.take(0) =~= Seq::empty());
    assert(text::texts(out@) =~= Seq::empty());
    while i < values.len()
        invariant
            i <= values@.len(),
            all == json::array_view(values@),
            text::texts(out@) == value_names(all.take(i as int)),
        decreases values@.len() - i,
    {
        let ghost before = out@;
        assert(all.take(i + 1).drop_last() =~= all.take(i as int));
        assert(all.take(i + 1).last() == values@[i as int]@);
        let archived = match values[i].member("archived").as_bool() {
            Some(b) => b,
            None => false,
        };
        if !archived {
            if let Some(n) = values[i].member("name").as_str() {
                out.push(n.to_owned());
                assert(text::texts(out@) =~= text::texts(before).push(n@));
            }
        }
        i += 1;
    }
    assert(all.take(all.len() as int) =~= all);
    out
}

/// The line of a field of a project.
fn show_field(f: &Json) -> (r: Vec<Line>)
    ensures
        line::views(r@) == field_line(f@),
{
    let field = f.member("field");
    let required = match f.member("canBeEmpty").as_bool() {
        Some(b) => !b,
        None => false,
    };
    let mut t = text::cat3(
        field.text_or("name", "?"),
        if required {
            "*"
        } else {
            ""
        },
        " (",
    );
    t.append(field.member("fieldType").text_or("valueType", "?"));
    t.append(")");
    let names = names_of_values(f.member("bundle").member("values").items());
    assert(text::texts(names@).len() == names@.len());
    if names.len() > 0 {
        t.append(": ");
        t.append(text::join(&names, ", ").as_str());
    }
    line::just(t)
}

/// The fields `list` of the project `short`.
pub fn show_fields(short: &str, list: &[Json]) -> (r: Vec<Line>)
    ensures
        line::views(r@) == field_lines(short@, json::array_view(list@)),
{
    line::both(
        line::just(text::cat3("# ", short, ": * = required")),
        spread_lines(list, show_field, Ghost(|f: JsonView| field_line(f))),
    )
}

/// The custom fields of all of `issues`.
fn fields_of(issues: &[Json]) -> (r: Vec<&Json>)
    ensures
        refs(r@) == fields::all_fields(json::array_view(issues@)),
{
    let ghost all = json::array_view(issues@);
    let mut out: Vec<&Json> = Vec::new();
    let mut i: usize = 0;
    assert(all.take(0) =~= Seq::empty());
    assert(refs(out@) =~= Seq::empty());
    while i < issues.len()
        invariant
            i <= issues@.len(),
            all == json::array_view(issues@),
            refs(out@) == fields::all_fields(all.take(i as int)),
        decreases issues@.len() - i,
    {
        assert(all.take(i + 1).drop_last() =~= all.take(i as int));
        assert(all.take(i + 1).last() == issues@[i as int]@);
        let items = issues[i].member("customFields").items();
        let ghost before = refs(out@);
        let ghost more = json::array_view(items@);
        let mut k: usize = 0;
        assert(before + more.take(0) =~= before);
        while k < items.len()
            invariant
                k <= items@.len(),
                more == json::array_view(items@),
                refs(out@) == before + more.take(k as int),
            decreases items@.len() - k,
        {
            let ghost prior = out@;
            out.push(&items[k]);
            assert(refs(out@) =~= refs(prior).push(more[k as int]));
            assert(more.take(k + 1) =~= more.take(k as int).push(more[k as int]));
            k += 1;
            assert(refs(out@) =~= before + more.take(k as int));
        }
        assert(more.take(more.len() as int) =~= more);
        i += 1;
    }
    assert(all.take(all.len() as int) =~= all);
    out
}

/// The names of those of the fields that have a value, where `name` is missing; the
/// values of those of the name `name`, where it is given.
fn seen_texts(list: &Vec<&Json>, name: Option<&str>) -> (r: TextMap<()>)
    ensures
        r@.dom() == match name {
            None => names_seen(refs(list@)),
            Some(n) => values_seen(refs(list@), n@),
        },
{
    let ghost all = refs(list@);
    let mut out: TextMap<()> = TextMap::new();
    let mut i: usize = 0;
    assert(all.take(0) =~= Seq::empty());
    assert(out@.dom() =~= Set::empty());
    while i < list.len()
        invariant
            i <= list@.len(),
            all == refs(list@),
            out@.dom() == match name {
                None => names_seen(all.take(i as int)),
                Some(n) => values_seen(all.take(i as int), n@),
            },
        decreases list@.len() - i,
    {
        let ghost before = out@.dom();
        let f = list[i];
        assert(all.take(i + 1).drop_last() =~= all.take(i as int));
        assert(all.take(i + 1).last() == f@);
        if let (Some(n), Some(v)) = (
            f.member("name").as_str(),
            fields::cf_value(f.member("value")),
        ) {
            match name {
                None => {
                    out.insert(n.to_owned(), ());
                    assert(out@.dom() =~= before.insert(n@));
                },
                Some(wanted) => if text::same(n, wanted) {
                    out.insert(v, ());
                    assert(out@.dom() =~= before.insert(v@));
                },
            }
        }
        i += 1;
    }
    assert(all.take(all.len() as int) =~= all);
    out
}

/// The fields of the project `short` as they are seen on some of its issues.
pub fn show_seen_fields(short: &str, issues: &Json) -> (r: Result<Vec<Line>, Failure>)
    ensures
        seen_lines(short@, issues@) == match r {
            Ok(l) => Ok(line::views(l@)),
            Err(e) => Err(e@),
        },
{
    let list = fields_of(issues.items());
    let ghost all = fields::all_fields(issues@.items());
    let seen = seen_texts(&list, None);
    let names = seen.keys();
    let ghost order = sorted::in_order(names_seen(all));
    assert(text::texts(names@).len() == names@.len());
    if names.len() == 0 {
        assert(names_seen(all) =~= Set::empty()) by {
            assert forall|n: Seq<char>| !names_seen(all).contains(n) by {
                if names_seen(all).contains(n) {
                    assert(order.contains(n));
                }
            }
        }
        return Err(
            Failure::about(
                "no field info available for ",
                short,
                " (no admin access, no issues to sample)",
            ),
        );
    }
    assert(names_seen(all) != Set::<Seq<char>>::empty()) by {
        assert(order.contains(order[0]));
    }
    let mut out = line::just(
        text::cat3(
            "# ",
            short,
            ": values observed on recent issues (field config not readable with this token)",
        ),
    );
    let ghost head = line::views(out@);
    let ghost told = order.map_values(|n: Seq<char>| seen_line(all, n));
    let mut i: usize = 0;
    assert(head + told.take(0) =~= head);
    while i < names.len()
        invariant
            i <= names@.len(),
            all == refs(list@),
            order == text::texts(names@),
            told == order.map_values(|n: Seq<char>| seen_line(all, n)),
            line::views(out@) == head + told.take(i as int),
        decreases names@.len() - i,
    {
        let name = names[i].as_str();
        let values = seen_texts(&list, Some(name)).keys();
        let t = text::cat3(name, ": ", text::join(&values, ", ").as_str());
        line::put(&mut out, Line::Plain(t));
        assert(told.take(i + 1) =~= told.take(i as int).push(told[i as int]));
        i += 1;
        assert(line::views(out@) =~= head + told.take(i as int));
    }
    assert(told.take(order.len() as int) =~= told);
    Ok(out)
}

} // verus!
