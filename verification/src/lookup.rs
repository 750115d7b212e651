//! What is looked up on a server to carry out a command: projects, tags, issues,
//! links and pull requests.

use vstd::prelude::*;
use crate::client::Reply;
use crate::client;
use crate::failure::Failure;
use crate::failure;
use crate::json::{Json, JsonView};
use crate::json;
use crate::sorted::TextMap;
use crate::sorted;
use crate::text;

verus! {

// ---- meaning ----

/// Whether the member `key` of `v` is the text `name`, in whatever case.
pub open spec fn is_called(v: JsonView, key: Seq<char>, name: Seq<char>) -> bool {
    v.member(key).text() matches Some(n) && text::alike(n, name)
}

/// The id and the short name of the project whose short name or name is `key`.
pub open spec fn project_found(projects: JsonView, key: Seq<char>) -> Result<
    (Seq<char>, Seq<char>),
    Seq<char>,
> {
    match json::first_where(
        projects.items(),
        |p: JsonView| is_called(p, "shortName"@, key) || is_called(p, "name"@, key),
    ) {
        Some(p) => Ok((p.text_or("id"@, ""@), p.text_or("shortName"@, key))),
        None => Err("project not found: "@ + key),
    }
}

/// The id of the tag `name`.
pub open spec fn tag_found(tags: JsonView, name: Seq<char>) -> Result<Seq<char>, Seq<char>> {
    match json::first_where(tags.items(), |t: JsonView| is_called(t, "name"@, name)) {
        Some(t) => match t.member("id"@).text() {
            Some(id) => Ok(id),
            None => Err("tag not found: "@ + name),
        },
        None => Err("tag not found: "@ + name),
    }
}

/// The internal id of the issue `id`.
pub open spec fn issue_found(issue: JsonView, id: Seq<char>) -> Result<Seq<char>, Seq<char>> {
    match issue.member("id"@).text() {
        Some(t) => Ok(t),
        None => Err("no such issue: "@ + id),
    }
}

/// The change of a pull request that `v` tells: its state, and its address where it
/// has one.
pub open spec fn pr_change(v: JsonView) -> Option<(Seq<char>, Option<Seq<char>>)> {
    match v.member("state"@).member("id"@).text() {
        Some(s) => Some((s, v.member("url"@).text())),
        None => None,
    }
}

/// The changes that the values `s` tell.
pub open spec fn pr_changes(s: Seq<JsonView>) -> Seq<(Seq<char>, Option<Seq<char>>)>
    decreases s.len(),
{
    if s.len() == 0 {
        Seq::empty()
    } else {
        let head = pr_changes(s.drop_last());
        match pr_change(s.last()) {
            Some(p) => head.push(p),
            None => head,
        }
    }
}

/// What the activities `s` added, one activity behind the other.
pub open spec fn all_added(s: Seq<JsonView>) -> Seq<JsonView>
    decreases s.len(),
{
    if s.len() == 0 {
        Seq::empty()
    } else {
        all_added(s.drop_last()) + s.last().member("added"@).items()
    }
}

/// The texts of the changes `s`.
pub open spec fn change_texts(s: Seq<(String, Option<String>)>) -> Seq<
    (Seq<char>, Option<Seq<char>>),
> {
    s.map_values(|p: (String, Option<String>)| (p.0@, text::opt_text(p.1)))
}

/// Whether one of the changes `s` is a merge.
pub open spec fn merged(s: Seq<(Seq<char>, Option<Seq<char>>)>) -> bool {
    exists|i: int| 0 <= i < s.len() && text::alike((#[trigger] s[i]).0, "merged"@)
}

/// The changes of pull requests that a reply lists.
pub open spec fn changes_told(r: Reply) -> Result<Seq<(Seq<char>, Option<Seq<char>>)>, Seq<char>> {
    match client::reply_value(r) {
        Ok(v) => Ok(pr_changes(all_added(v.items()))),
        Err(e) => Err(e),
    }
}

/// Whether `id` is an internal id: digits, a hyphen, digits.
pub open spec fn is_internal(id: Seq<char>) -> bool {
    let n = text::run(id, text::just('-')) as int;
    &&& 0 < n < id.len() - 1
    &&& forall|i: int| 0 <= i < id.len() && i != n ==> text::is_digit(#[trigger] id[i])
}

/// The object that refers to the issue `id`.
pub open spec fn reference(id: Seq<char>) -> JsonView {
    JsonView::Object(
        Map::empty().insert(
            if is_internal(id) {
                "id"@
            } else {
                "idReadable"@
            },
            JsonView::Text(id),
        ),
    )
}

/// The words for a group of links, as read from the issue that they are listed for.
pub open spec fn phrase_of(group: JsonView) -> Seq<char> {
    group.member("linkType"@).text_or(
        if group.member("direction"@).text() == Some("INWARD"@) {
            "targetToSource"@
        } else {
            "sourceToTarget"@
        },
        ""@,
    )
}

/// Whether a group of links has any issue.
pub open spec fn has_issues(group: JsonView) -> bool {
    group.member("issues"@).items().len() > 0
}

/// The phrases of the groups `s`, but for the empty one.
pub open spec fn phrases(s: Seq<JsonView>) -> Set<Seq<char>>
    decreases s.len(),
{
    if s.len() == 0 {
        Set::empty()
    } else {
        let head = phrases(s.drop_last());
        if phrase_of(s.last()).len() == 0 {
            head
        } else {
            head.insert(phrase_of(s.last()))
        }
    }
}

/// How a text is shown between quotation marks with its special characters escaped,
/// the way of `{:?}`.
pub uninterp spec fn debugged(text: Seq<char>) -> Seq<char>;

/// The message on a phrase that is none of those that the server accepts, given how
/// the phrase is shown.
pub open spec fn unknown_phrase_message(shown: Seq<char>, groups: Seq<JsonView>) -> Seq<char> {
    "unknown link phrase "@ + shown + "; this server accepts: "@ + text::joined(
        sorted::in_order(phrases(groups)),
        ", "@,
    )
}

/// The id of the group of links with the words `phrase`, given how these are shown.
pub open spec fn group_found(links: JsonView, phrase: Seq<char>, shown: Seq<char>) -> Result<
    Seq<char>,
    Seq<char>,
> {
    match json::first_where(
        links.items(),
        |g: JsonView| text::alike(phrase_of(g), phrase),
    ) {
        Some(g) => Ok(g.text_or("id"@, ""@)),
        None => Err(unknown_phrase_message(shown, links.items())),
    }
}

// ---- trusted ----

/// `format!` with `{:?}` on a string slice, which escapes it by std's tables. Nothing
/// more is claimed than that the text alone decides what comes out.
#[verifier::external_body]
fn debug(t: &str) -> (r: String)
    ensures
        r@ == debugged(t@),
{
    format!("{t:?}")
}

// ---- operations ----

/// Whether the member `key` of `v` is the text `name`, in whatever case.
pub fn called(v: &Json, key: &str, name: &str) -> (r: bool)
    ensures
        r == is_called(v@, key@, name@),
{
    match v.member(key).as_str() {
        Some(n) => text::same_ignoring_case(n, name),
        None => false,
    }
}

/// The id and the short name of the project whose short name or name is `key`.
pub fn resolve_project(projects: &Json, key: &str) -> (r: Result<(String, String), Failure>)
    ensures
        project_found(projects@, key@) == match r {
            Ok(p) => Ok((p.0@, p.1@)),
            Err(e) => Err(e@),
        },
{
    let wanted = |p: &Json| -> (b: bool)
        ensures
            b == (is_called(p@, "shortName"@, key@) || is_called(p@, "name"@, key@)),
        { called(p, "shortName", key) || called(p, "name", key) };
    match json::find_where(
        projects.items(),
        wanted,
        Ghost(|p: JsonView| is_called(p, "shortName"@, key@) || is_called(p, "name"@, key@)),
    ) {
        Some(p) => Ok((p.text_or("id", "").to_owned(), p.text_or("shortName", key).to_owned())),
        None => Err(Failure { message: text::cat("project not found: ", key) }),
    }
}

/// The id of the tag `name`.
pub fn resolve_tag(tags: &Json, name: &str) -> (r: Result<String, Failure>)
    ensures
        failure::outcome(r) == tag_found(tags@, name@),
{
    let named = |t: &Json| -> (b: bool)
        ensures
            b == is_called(t@, "name"@, name@),
        { called(t, "name", name) };
    let found = match json::find_where(
        tags.items(),
        named,
        Ghost(|t: JsonView| is_called(t, "name"@, name@)),
    ) {
        Some(t) => t.member("id").as_str(),
        None => None,
    };
    match found {
        Some(id) => Ok(id.to_owned()),
        None => Err(Failure { message: text::cat("tag not found: ", name) }),
    }
}

/// The internal id of the issue `id`.
pub fn internal_id(issue: &Json, id: &str) -> (r: Result<String, Failure>)
    ensures
        failure::outcome(r) == issue_found(issue@, id@),
{
    match issue.member("id").as_str() {
        Some(t) => Ok(t.to_owned()),
        None => Err(Failure { message: text::cat("no such issue: ", id) }),
    }
}

/// Puts the changes that `added` tells behind those of `out`.
fn add_changes(
    out: &mut Vec<(String, Option<String>)>,
    added: &[Json],
    Ghost(before): Ghost<Seq<JsonView>>,
)
    requires
        change_texts(old(out)@) == pr_changes(before),
    ensures
        change_texts(final(out)@) == pr_changes(before + json::array_view(added@)),
{
    let ghost all = json::array_view(added@);
    let mut i: usize = 0;
    assert(before + all.take(0) =~= before);
    while i < added.len()
        invariant
            i <= added@.len(),
            all == json::array_view(added@),
            change_texts(out@) == pr_changes(before + all.take(i as int)),
        decreases added@.len() - i,
    {
        let ghost o = out@;
        assert((before + all.take(i + 1)).drop_last() =~= before + all.take(i as int));
        assert((before + all.take(i + 1)).last() == added@[i as int]@);
        if let Some(s) = added[i].member("state").member("id").as_str() {
            let url = match added[i].member("url").as_str() {
                Some(u) => Some(u.to_owned()),
                None => None,
            };
            out.push((s.to_owned(), url));
            assert(change_texts(out@) =~= change_texts(o).push((s@, text::opt_text(url))));
        }
        i += 1;
    }
    assert(all.take(all.len() as int) =~= all);
}

/// The changes of pull requests, each with its state and its address where it has
/// one, that an activity stream lists, in its order.
pub fn pr_changes_from_activities(acts: &Json) -> (r: Vec<(String, Option<String>)>)
    ensures
        change_texts(r@) == pr_changes(all_added(acts@.items())),
{
    let items = acts.items();
    let ghost all = json::array_view(items@);
    let mut out: Vec<(String, Option<String>)> = Vec::new();
    let mut i: usize = 0;
    assert(all.take(0) =~= Seq::empty());
    assert(change_texts(out@) =~= Seq::empty());
    while i < items.len()
        invariant
            i <= items@.len(),
            all == json::array_view(items@),
            change_texts(out@) == pr_changes(all_added(all.take(i as int))),
        decreases items@.len() - i,
    {
        assert(all.take(i + 1).drop_last() =~= all.take(i as int));
        assert(all.take(i + 1).last() == items@[i as int]@);
        let added = items[i].member("added").items();
        add_changes(&mut out, added, Ghost(all_added(all.take(i as int))));
        i += 1;
    }
    assert(all.take(all.len() as int) =~= all);
    out
}

/// Whether one of the changes of pull requests is a merge.
pub fn has_merged_pr(changes: &[(String, Option<String>)]) -> (r: bool)
    ensures
        r == merged(change_texts(changes@)),
{
    let ghost all = change_texts(changes@);
    let mut i: usize = 0;
    while i < changes.len()
        invariant
            i <= changes@.len(),
            all == change_texts(changes@),
            forall|k: int| 0 <= k < i ==> !text::alike((#[trigger] all[k]).0, "merged"@),
        decreases changes@.len() - i,
    {
        if text::same_ignoring_case(changes[i].0.as_str(), "merged") {
            assert(text::alike(all[i as int].0, "merged"@));
            return true;
        }
        i += 1;
    }
    false
}

/// The changes of pull requests that the reply about an issue's activities lists.
pub fn fetch_pr_changes(reply: Reply) -> (r: Result<Vec<(String, Option<String>)>, Failure>)
    ensures
        changes_told(reply) == match r {
            Ok(v) => Ok(change_texts(v@)),
            Err(e) => Err(e@),
        },
{
    match client::read(reply) {
        Ok(v) => Ok(pr_changes_from_activities(&v)),
        Err(e) => Err(e),
    }
}

/// The object that refers to the issue `id`.
pub fn issue_ref(id: &str) -> (r: Json)
    ensures
        r@ == reference(id@),
{
    let n = text::index_of(id, '-');
    let chars = text::chars_of(id);
    let mut internal = n > 0 && n < chars.len() && chars.len() - n > 1;
    let mut i: usize = 0;
    while i < chars.len()
        invariant
            i <= chars@.len(),
            chars@ == id@,
            internal ==> 0 < n < id@.len() - 1,
            internal ==> forall|k: int| 0 <= k < i && k != n ==> text::is_digit(#[trigger] id@[k]),
            !internal ==> !(0 < n < id@.len() - 1) || exists|k: int|
                0 <= k < i && k != n && !text::is_digit(#[trigger] id@[k]),
        decreases chars@.len() - i,
    {
        if i != n && !text::digit_char(chars[i]) {
            internal = false;
            assert(!text::is_digit(id@[i as int]));
        }
        i += 1;
    }
    assert(internal == is_internal(id@));
    Json::object().with(
        if internal {
            "id"
        } else {
            "idReadable"
        },
        Json::text(id),
    )
}

/// The words for a group of links, as read from the issue that they are listed for.
pub fn link_phrase(group: &Json) -> (r: &str)
    ensures
        r@ == phrase_of(group@),
{
    let inward = match group.member("direction").as_str() {
        Some(d) => text::same(d, "INWARD"),
        None => false,
    };
    group.member("linkType").text_or(
        if inward {
            "targetToSource"
        } else {
            "sourceToTarget"
        },
        "",
    )
}

/// The message on a phrase that is none of those that the server accepts, given how
/// the phrase is shown.
pub fn unknown_phrase(shown: &str, groups: &[Json]) -> (r: Failure)
    ensures
        r@ == unknown_phrase_message(shown@, json::array_view(groups@)),
{
    let ghost all = json::array_view(groups@);
    let mut seen: TextMap<()> = TextMap::new();
    let mut i: usize = 0;
    assert(all.take(0) =~= Seq::empty());
    assert(seen@.dom() =~= Set::empty());
    while i < groups.len()
        invariant
            i <= groups@.len(),
            all == json::array_view(groups@),
            seen@.dom() == phrases(all.take(i as int)),
        decreases groups@.len() - i,
    {
        assert(all.take(i + 1).drop_last() =~= all.take(i as int));
        assert(all.take(i + 1).last() == groups@[i as int]@);
        let p = link_phrase(&groups[i]);
        if !p.is_empty() {
            let ghost d = seen@.dom();
            seen.insert(p.to_owned(), ());
            assert(seen@.dom() =~= d.insert(p@));
        }
        i += 1;
    }
    assert(all.take(all.len() as int) =~= all);
    let names = seen.keys();
    let mut m = text::cat3("unknown link phrase ", shown, "; this server accepts: ");
    m.append(text::join(&names, ", ").as_str());
    Failure { message: m }
}

/// The id of the group of links with the words `phrase`, given how these are shown.
pub fn link_group(links: &Json, phrase: &str, shown: &str) -> (r: Result<String, Failure>)
    ensures
        failure::outcome(r) == group_found(links@, phrase@, shown@),
{
    let worded = |g: &Json| -> (b: bool)
        ensures
            b == text::alike(phrase_of(g@), phrase@),
        { text::same_ignoring_case(link_phrase(g), phrase) };
    match json::find_where(
        links.items(),
        worded,
        Ghost(|g: JsonView| text::alike(phrase_of(g), phrase@)),
    ) {
        Some(g) => Ok(g.text_or("id", "").to_owned()),
        None => Err(unknown_phrase(shown, links.items())),
    }
}

/// The id of the group of links with the words `phrase`.
pub fn resolve_link_group(links: &Json, phrase: &str) -> (r: Result<String, Failure>)
    ensures
        failure::outcome(r) == group_found(links@, phrase@, debugged(phrase@)),
{
    let shown = debug(phrase);
    link_group(links, phrase, shown.as_str())
}

} // verus!
