//! What values show and what look-ups find, told by what the server sends.

use vstd::prelude::*;
use crate::client::Reply;
use crate::client;
use crate::date;
use crate::fields;
use crate::json::JsonView;
use crate::json;
use crate::lookup;
use crate::number;
use crate::sorted;
use crate::text;
use crate::wire;

verus! {

/// Whether the member `key` of `v` is the text `name`, but for the case of letters.
pub open spec fn goes_by(v: JsonView, key: Seq<char>, name: Seq<char>) -> bool {
    match v.member(key) {
        JsonView::Text(t) => text::lowered(t) == text::lowered(name),
        _ => false,
    }
}

/// What a value of a custom field that is no list shows.
pub proof fn law_single_values_are_shown(v: JsonView)
    ensures
        match v {
            JsonView::Null => fields::shown(v) is None,
            JsonView::Bool(b) => fields::shown(v) == Some(
                if b {
                    "true"@
                } else {
                    "false"@
                },
            ),
            JsonView::Integer(i) => {
                &&& i <= 100_000_000_000 || i > i64::MAX ==> fields::shown(v) == Some(
                    number::signed(i),
                )
                &&& 100_000_000_000 < i <= i64::MAX ==> fields::shown(v) == Some(
                    date::written(date::date_of(i / 86_400_000)),
                )
            },
            JsonView::Float(t) => fields::shown(v) == Some(t),
            JsonView::Text(t) => fields::shown(v) == Some(seq!['"'] + wire::escaped(t) + seq!['"']),
            JsonView::Array(_) => true,
            JsonView::Object(m) => {
                &&& m.contains_key("login"@) ==> fields::shown(v) == m["login"@].text()
                &&& !m.contains_key("login"@) && m.contains_key("name"@) ==> fields::shown(v)
                    == m["name"@].text()
                &&& !m.contains_key("login"@) && !m.contains_key("name"@) && m.contains_key(
                    "text"@,
                ) ==> fields::shown(v) == m["text"@].text()
                &&& !m.contains_key("login"@) && !m.contains_key("name"@) && !m.contains_key(
                    "text"@,
                ) ==> fields::shown(v) is None
            },
        },
{
}

/// A list with one more item shows what that item shows behind a comma, where both show
/// anything; a list without items shows nothing.
pub proof fn law_lists_are_shown(v: JsonView, w: JsonView, x: JsonView)
    requires
        v is Array,
        w is Array,
        w->Array_0 == v->Array_0.push(x),
    ensures
        v->Array_0.len() == 0 ==> fields::shown(v) is None,
        fields::shown(w) == match (fields::shown(v), fields::shown(x)) {
            (Some(a), Some(b)) => Some(a + ","@ + b),
            (Some(a), None) => Some(a),
            (None, Some(b)) => Some(b),
            (None, None) => None,
        },
{
    let a = v->Array_0;
    let b = w->Array_0;
    assert(b.drop_last() =~= a);
    assert(b.last() == x);
    let parts = fields::shown_items(a);
    if let Some(t) = fields::shown(x) {
        assert(parts.push(t).drop_last() =~= parts);
        assert(parts.push(t).last() == t);
    }
}

/// A custom field shows the value of the first field that goes by its name.
pub proof fn law_fields_are_found_by_name(issue: JsonView, name: Seq<char>, i: int)
    ensures
        ({
            let s = issue.member("customFields"@).items();
            &&& 0 <= i < s.len() && goes_by(s[i], "name"@, name) && (forall|k: int|
                0 <= k < i ==> !goes_by(#[trigger] s[k], "name"@, name)) ==> fields::shown_field(
                issue,
                name,
            ) == fields::shown(s[i].member("value"@))
            &&& (forall|k: int| 0 <= k < s.len() ==> !goes_by(#[trigger] s[k], "name"@, name))
                ==> fields::shown_field(issue, name) is None
        }),
{
    let s = issue.member("customFields"@).items();
    let p = |f: JsonView| lookup::is_called(f, "name"@, name);
    lemma_first(s, p, i);
    assert(forall|v: JsonView| #[trigger] p(v) == goes_by(v, "name"@, name));
}

/// What is found first, by its place.
proof fn lemma_first(s: Seq<JsonView>, p: spec_fn(JsonView) -> bool, i: int)
    ensures
        0 <= i < s.len() && p(s[i]) && (forall|k: int| 0 <= k < i ==> !p(#[trigger] s[k]))
            ==> json::first_where(s, p) == Some(s[i]),
        (forall|k: int| 0 <= k < s.len() ==> !p(#[trigger] s[k])) ==> json::first_where(s, p)
            is None,
    decreases s.len(),
{
    if s.len() > 0 && !p(s[0]) {
        let t = s.drop_first();
        lemma_first(t, p, i - 1);
        assert forall|k: int| 0 <= k < t.len() implies #[trigger] t[k] == s[k + 1] by {}
    }
}

/// A project is found by its short name or its name: the first that goes by either, with
/// its id and its short name.
pub proof fn law_projects_are_found(projects: JsonView, key: Seq<char>, i: int)
    ensures
        ({
            let s = projects.items();
            let hit = |v: JsonView| goes_by(v, "shortName"@, key) || goes_by(v, "name"@, key);
            &&& 0 <= i < s.len() && hit(s[i]) && (forall|k: int|
                0 <= k < i ==> !hit(#[trigger] s[k])) ==> lookup::project_found(projects, key)
                == Ok::<(Seq<char>, Seq<char>), Seq<char>>(
                (
                    match s[i].member("id"@) {
                        JsonView::Text(t) => t,
                        _ => ""@,
                    },
                    match s[i].member("shortName"@) {
                        JsonView::Text(t) => t,
                        _ => key,
                    },
                ),
            )
            &&& (forall|k: int| 0 <= k < s.len() ==> !hit(#[trigger] s[k]))
                ==> lookup::project_found(projects, key) == Err::<
                (Seq<char>, Seq<char>),
                Seq<char>,
            >("project not found: "@ + key)
        }),
{
    let s = projects.items();
    let hit = |v: JsonView| goes_by(v, "shortName"@, key) || goes_by(v, "name"@, key);
    let p = |p: JsonView| lookup::is_called(p, "shortName"@, key) || lookup::is_called(
        p,
        "name"@,
        key,
    );
    lemma_first(s, p, i);
    assert(forall|v: JsonView| #[trigger] p(v) == hit(v));
}

/// A tag is found by its name: the id of the first that goes by it.
pub proof fn law_tags_are_found(tags: JsonView, name: Seq<char>, i: int)
    ensures
        ({
            let s = tags.items();
            &&& 0 <= i < s.len() && goes_by(s[i], "name"@, name) && (forall|k: int|
                0 <= k < i ==> !goes_by(#[trigger] s[k], "name"@, name)) ==> lookup::tag_found(
                tags,
                name,
            ) == match s[i].member("id"@) {
                JsonView::Text(t) => Ok::<Seq<char>, Seq<char>>(t),
                _ => Err("tag not found: "@ + name),
            }
            &&& (forall|k: int| 0 <= k < s.len() ==> !goes_by(#[trigger] s[k], "name"@, name))
                ==> lookup::tag_found(tags, name) == Err::<Seq<char>, Seq<char>>(
                "tag not found: "@ + name,
            )
        }),
{
    let s = tags.items();
    let p = |t: JsonView| lookup::is_called(t, "name"@, name);
    lemma_first(s, p, i);
    assert(forall|v: JsonView| #[trigger] p(v) == goes_by(v, "name"@, name));
}

/// The words that a group of links is told by: from the target's side where the links
/// come in, else from the source's.
pub open spec fn told_phrase(group: JsonView) -> Seq<char> {
    let key = if group.member("direction"@) == JsonView::Text("INWARD"@) {
        "targetToSource"@
    } else {
        "sourceToTarget"@
    };
    match group.member("linkType"@).member(key) {
        JsonView::Text(t) => t,
        _ => ""@,
    }
}

/// The words for a group of links are those it is told by.
pub proof fn law_phrases_follow_the_direction(group: JsonView)
    ensures
        lookup::phrase_of(group) == told_phrase(group),
{
}

/// A group of links is found by its words: the id of the first that is told by them.
/// Where none is, the message lists the words that there are, each once and in order,
/// but for empty ones.
pub proof fn law_link_groups_are_found(links: JsonView, phrase: Seq<char>, shown: Seq<char>, i: int)
    ensures
        ({
            let s = links.items();
            let hit = |g: JsonView| text::lowered(told_phrase(g)) == text::lowered(phrase);
            &&& 0 <= i < s.len() && hit(s[i]) && (forall|k: int|
                0 <= k < i ==> !hit(#[trigger] s[k])) ==> lookup::group_found(links, phrase, shown)
                == Ok::<Seq<char>, Seq<char>>(
                match s[i].member("id"@) {
                    JsonView::Text(t) => t,
                    _ => ""@,
                },
            )
            &&& (forall|k: int| 0 <= k < s.len() ==> !hit(#[trigger] s[k]))
                ==> lookup::group_found(links, phrase, shown) == Err::<Seq<char>, Seq<char>>(
                "unknown link phrase "@ + shown + "; this server accepts: "@ + text::joined(
                    sorted::in_order(lookup::phrases(s)),
                    ", "@,
                ),
            )
        }),
{
    let s = links.items();
    let hit = |g: JsonView| text::lowered(told_phrase(g)) == text::lowered(phrase);
    let p = |g: JsonView| text::alike(lookup::phrase_of(g), phrase);
    lemma_first(s, p, i);
    assert(forall|v: JsonView| #[trigger] p(v) == hit(v));
}

/// The words accepted are those that some group is told by, but for empty ones.
pub proof fn law_accepted_phrases_are_those_told(s: Seq<JsonView>, phrase: Seq<char>)
    ensures
        lookup::phrases(s).contains(phrase) <==> phrase.len() > 0 && exists|i: int|
            0 <= i < s.len() && told_phrase(#[trigger] s[i]) == phrase,
    decreases s.len(),
{
    if s.len() > 0 {
        let d = s.drop_last();
        law_accepted_phrases_are_those_told(d, phrase);
        assert(forall|i: int| 0 <= i < d.len() ==> #[trigger] d[i] == s[i]);
        assert(s[s.len() - 1] == s.last());
        if phrase.len() > 0 && exists|i: int| 0 <= i < s.len() && told_phrase(#[trigger] s[i]) == phrase {
            let i = choose|i: int| 0 <= i < s.len() && told_phrase(#[trigger] s[i]) == phrase;
            if i < d.len() {
                assert(told_phrase(d[i]) == phrase);
            }
        }
        if exists|i: int| 0 <= i < d.len() && told_phrase(#[trigger] d[i]) == phrase {
            let i = choose|i: int| 0 <= i < d.len() && told_phrase(#[trigger] d[i]) == phrase;
            assert(told_phrase(s[i]) == phrase);
        }
    }
}

/// An issue is referred to by its internal id where its id is digits, a hyphen and
/// digits, else by its readable id.
pub proof fn law_issues_are_referred_to(id: Seq<char>, n: int)
    ensures
        0 < n < id.len() - 1 && id[n] == '-' && (forall|i: int|
            0 <= i < id.len() && i != n ==> text::is_digit(#[trigger] id[i])) ==> lookup::reference(
            id,
        ) == JsonView::Object(map!["id"@ => JsonView::Text(id)]),
        (forall|k: int|
            0 < k < id.len() - 1 && #[trigger] id[k] == '-' ==> exists|i: int|
                0 <= i < id.len() && i != k && !text::is_digit(#[trigger] id[i]))
            ==> lookup::reference(id) == JsonView::Object(map!["idReadable"@ => JsonView::Text(id)]),
{
    text::lemma_run(id, text::just('-'));
    let m = text::run(id, text::just('-')) as int;
    if 0 < n < id.len() - 1 && id[n] == '-' && (forall|i: int|
        0 <= i < id.len() && i != n ==> text::is_digit(#[trigger] id[i])) {
        if m != n {
            if m < id.len() {
                assert(text::is_digit(id[m]));
            } else {
                assert(id[n] != '-');
            }
        }
    }
    if lookup::is_internal(id) {
        assert(id[m] == '-');
    }
}

/// What a change of a pull request is told by, where it tells a state: the state, and
/// its address or nothing.
pub open spec fn told_change(v: JsonView) -> Option<(Seq<char>, Seq<char>)> {
    match v.member("state"@).member("id"@) {
        JsonView::Text(s) => Some(
            (
                s,
                match v.member("url"@) {
                    JsonView::Text(u) => u,
                    _ => ""@,
                },
            ),
        ),
        _ => None,
    }
}

/// The changes of pull requests that the values `s` tell, in order.
pub open spec fn told_changes(s: Seq<JsonView>) -> Seq<(Seq<char>, Seq<char>)>
    decreases s.len(),
{
    if s.len() == 0 {
        Seq::empty()
    } else {
        match told_change(s[0]) {
            Some(p) => seq![p] + told_changes(s.drop_first()),
            None => told_changes(s.drop_first()),
        }
    }
}

/// The changes of pull requests that all activities `s` add, in order.
pub open spec fn activity_changes(s: Seq<JsonView>) -> Seq<(Seq<char>, Seq<char>)>
    decreases s.len(),
{
    if s.len() == 0 {
        Seq::empty()
    } else {
        told_changes(s[0].member("added"@).items()) + activity_changes(s.drop_first())
    }
}

/// A change with nothing for an address that is missing.
pub open spec fn with_address(p: (Seq<char>, Option<Seq<char>>)) -> (Seq<char>, Seq<char>) {
    (
        p.0,
        match p.1 {
            Some(u) => u,
            None => ""@,
        },
    )
}

proof fn lemma_told_changes(s: Seq<JsonView>)
    ensures
        lookup::pr_changes(s).map_values(
            |p: (Seq<char>, Option<Seq<char>>)| with_address(p),
        ) == told_changes(s),
    decreases s.len(),
{
    let f = |p: (Seq<char>, Option<Seq<char>>)| with_address(p);
    if s.len() == 0 {
        assert(lookup::pr_changes(s).map_values(f) =~= told_changes(s));
    } else {
        lemma_told_changes(s.drop_last());
        lemma_told_changes_push(s.drop_last(), s.last());
        assert(s.drop_last().push(s.last()) =~= s);
        assert(lookup::pr_changes(s).map_values(f) =~= told_changes(s));
    }
}

proof fn lemma_told_changes_push(s: Seq<JsonView>, v: JsonView)
    ensures
        told_changes(s.push(v)) == match told_change(v) {
            Some(p) => told_changes(s).push(p),
            None => told_changes(s),
        },
    decreases s.len(),
{
    let t = s.push(v);
    if s.len() == 0 {
        assert(t.drop_first() =~= s);
        assert(told_changes(t.drop_first()) =~= Seq::empty());
        if let Some(p) = told_change(v) {
            assert(told_changes(t) =~= told_changes(s).push(p));
        }
    } else {
        let d = s.drop_first();
        assert(t[0] == s[0]);
        assert(t.drop_first() =~= d.push(v));
        lemma_told_changes_push(d, v);
        if let Some(p) = told_change(v) {
            assert(told_changes(t.drop_first()) == told_changes(d).push(p));
            assert(told_changes(t) =~= told_changes(s).push(p));
        }
    }
}

proof fn lemma_told_changes_add(a: Seq<JsonView>, b: Seq<JsonView>)
    ensures
        told_changes(a + b) == told_changes(a) + told_changes(b),
    decreases a.len(),
{
    if a.len() == 0 {
        assert(a + b =~= b);
        assert(told_changes(a) + told_changes(b) =~= told_changes(b));
    } else {
        assert((a + b)[0] == a[0]);
        assert((a + b).drop_first() =~= a.drop_first() + b);
        lemma_told_changes_add(a.drop_first(), b);
        assert(told_changes(a + b) =~= told_changes(a) + told_changes(b));
    }
}

proof fn lemma_activities(s: Seq<JsonView>)
    ensures
        told_changes(lookup::all_added(s)) == activity_changes(s),
    decreases s.len(),
{
    if s.len() > 0 {
        lemma_activities(s.drop_first());
        lemma_all_added_front(s);
        lemma_told_changes_add(
            s[0].member("added"@).items(),
            lookup::all_added(s.drop_first()),
        );
    }
}

proof fn lemma_all_added_front(s: Seq<JsonView>)
    requires
        s.len() > 0,
    ensures
        lookup::all_added(s) == s[0].member("added"@).items() + lookup::all_added(s.drop_first()),
    decreases s.len(),
{
    let head = s[0].member("added"@).items();
    if s.len() == 1 {
        assert(lookup::all_added(s.drop_last()) =~= Seq::empty());
        assert(lookup::all_added(s.drop_first()) =~= Seq::empty());
        assert(lookup::all_added(s) == lookup::all_added(s.drop_last()) + head);
        assert(lookup::all_added(s) =~= head + lookup::all_added(s.drop_first()));
    } else {
        let d = s.drop_last();
        lemma_all_added_front(d);
        assert(d[0] == s[0]);
        assert(s.drop_first().drop_last() =~= d.drop_first());
        assert(s.drop_first().last() == s.last());
        let tail = s.last().member("added"@).items();
        assert(lookup::all_added(s) == lookup::all_added(d) + tail);
        assert(lookup::all_added(s.drop_first()) == lookup::all_added(d.drop_first()) + tail);
        assert(lookup::all_added(s) =~= head + lookup::all_added(s.drop_first()));
    }
}

/// The changes of pull requests are read off the activities in order, each with the id of
/// its state and its address; what tells no state is passed over.
pub proof fn law_changes_are_read_in_order(activities: JsonView)
    ensures
        lookup::pr_changes(lookup::all_added(activities.items())).map_values(
            |p: (Seq<char>, Option<Seq<char>>)| with_address(p),
        ) == activity_changes(activities.items()),
{
    lemma_told_changes(lookup::all_added(activities.items()));
    lemma_activities(activities.items());
}

/// What is read of a value: the members of an object, the items of an array, and what a
/// text, a boolean or a number holds; of anything else nothing.
pub proof fn law_values_are_read(v: JsonView, key: Seq<char>, other: Seq<char>)
    ensures
        match v {
            JsonView::Object(m) => if m.contains_key(key) {
                v.member(key) == m[key]
            } else {
                v.member(key) is Null
            },
            _ => v.member(key) is Null,
        },
        match v {
            JsonView::Array(a) => v.items() == a,
            _ => v.items().len() == 0,
        },
        match v {
            JsonView::Text(t) => v.text() == Some(t),
            _ => v.text() is None,
        },
        match v {
            JsonView::Bool(b) => v.truth() == Some(b),
            _ => v.truth() is None,
        },
        match v {
            JsonView::Integer(i) => {
                &&& i64::MIN <= i <= i64::MAX ==> (v.whole() matches Some(n) && n == i)
                &&& !(i64::MIN <= i <= i64::MAX) ==> v.whole() is None
                &&& 0 <= i <= u64::MAX ==> (v.natural() matches Some(n) && n == i)
                &&& !(0 <= i <= u64::MAX) ==> v.natural() is None
            },
            _ => v.whole() is None && v.natural() is None,
        },
        match v.member(key) {
            JsonView::Text(t) => v.text_or(key, other) == t,
            _ => v.text_or(key, other) == other,
        },
{
}

/// What a reply tells of pull requests is what its activities add, and a failure is told.
pub proof fn law_changes_of_a_reply(r: Reply)
    ensures
        match client::reply_value(r) {
            Ok(v) => lookup::changes_told(r) matches Ok(s) && s.map_values(
                |p: (Seq<char>, Option<Seq<char>>)| with_address(p),
            ) == activity_changes(v.items()),
            Err(e) => lookup::changes_told(r) == Err::<
                Seq<(Seq<char>, Option<Seq<char>>)>,
                Seq<char>,
            >(e),
        },
{
    if let Ok(v) = client::reply_value(r) {
        law_changes_are_read_in_order(v);
    }
}

/// The internal id of an issue is the one that it is told with.
pub proof fn law_internal_ids(issue: JsonView, id: Seq<char>)
    ensures
        match issue.member("id"@) {
            JsonView::Text(t) => lookup::issue_found(issue, id) == Ok::<Seq<char>, Seq<char>>(t),
            _ => lookup::issue_found(issue, id) == Err::<Seq<char>, Seq<char>>(
                "no such issue: "@ + id,
            ),
        },
{
}

} // verus!
