//! Custom fields of issues: how their values are shown, and how values given as
//! text are sent.

use vstd::prelude::*;
use crate::date;
use crate::json::{Json, JsonView};
use crate::json;
use crate::lookup;
use crate::number;
use crate::sorted::TextMap;
use crate::sorted;
use crate::text;
use crate::wire;

verus! {

// ---- meaning: showing ----

/// The value of the first of the names `login`, `name` and `text` that the object
/// has.
pub open spec fn label(m: Map<Seq<char>, JsonView>) -> JsonView {
    if m.contains_key("login"@) {
        m["login"@]
    } else if m.contains_key("name"@) {
        m["name"@]
    } else if m.contains_key("text"@) {
        m["text"@]
    } else {
        JsonView::Null
    }
}

/// How the value of a custom field is shown; nothing where it is empty. A whole
/// number above a hundred thousand million stands for a date.
pub open spec fn shown(v: JsonView) -> Option<Seq<char>>
    decreases v,
{
    match v {
        JsonView::Null => None,
        JsonView::Bool(b) => Some(
            if b {
                "true"@
            } else {
                "false"@
            },
        ),
        JsonView::Integer(i) => Some(
            if 100_000_000_000 < i <= i64::MAX {
                date::shown_date(v)
            } else {
                number::signed(i)
            },
        ),
        JsonView::Float(t) => Some(t),
        JsonView::Text(t) => Some(wire::quoted(t)),
        JsonView::Array(a) => {
            let parts = shown_items(a);
            if parts.len() == 0 {
                None
            } else {
                Some(text::joined(parts, ","@))
            }
        },
        JsonView::Object(m) => label(m).text(),
    }
}

/// How the items of an array are shown, those left out that are empty.
pub open spec fn shown_items(a: Seq<JsonView>) -> Seq<Seq<char>>
    decreases a,
{
    if a.len() == 0 {
        Seq::empty()
    } else {
        match shown(a.last()) {
            Some(t) => shown_items(a.drop_last()).push(t),
            None => shown_items(a.drop_last()),
        }
    }
}

/// How the custom field `name` of an issue is shown.
pub open spec fn shown_field(issue: JsonView, name: Seq<char>) -> Option<Seq<char>> {
    match json::first_where(
        issue.member("customFields"@).items(),
        |f: JsonView| lookup::is_called(f, "name"@, name),
    ) {
        Some(f) => shown(f.member("value"@)),
        None => None,
    }
}

// ---- meaning: sending ----

/// The object with the single member `key`, a text.
pub open spec fn single(key: Seq<char>, val: Seq<char>) -> JsonView {
    JsonView::Object(Map::empty().insert(key, JsonView::Text(val)))
}

/// `v`, as a list of one where there can be several.
pub open spec fn wrapped(multi: bool, v: JsonView) -> JsonView {
    if multi {
        JsonView::Array(seq![v])
    } else {
        v
    }
}

/// The field types whose values are told by name, one or several.
pub open spec fn named_types() -> Seq<Seq<char>> {
    seq![
        "SingleEnumIssueCustomField"@,
        "MultiEnumIssueCustomField"@,
        "SingleOwnedIssueCustomField"@,
        "MultiOwnedIssueCustomField"@,
        "SingleVersionIssueCustomField"@,
        "MultiVersionIssueCustomField"@,
        "SingleBuildIssueCustomField"@,
        "MultiBuildIssueCustomField"@,
        "SingleGroupIssueCustomField"@,
        "MultiGroupIssueCustomField"@,
    ]
}

/// Whether a field of the type `cf_type` takes a list.
pub open spec fn takes_list(cf_type: Seq<char>) -> bool {
    "Multi"@.is_prefix_of(cf_type)
}

/// The value of a plain field, given what `val` is as a number that need not be
/// whole: a whole number, else that number, else the text.
pub open spec fn plain_value(val: Seq<char>, number: Option<JsonView>) -> JsonView {
    match (number::parsed_i64(val), number) {
        (Some(i), _) => JsonView::Integer(i as int),
        (None, Some(n)) => n,
        (None, None) => JsonView::Text(val),
    }
}

/// The JSON value that a field of the type `cf_type` takes for the text `val`, given
/// what `val` is as a number that need not be whole. Nothing for a type whose values
/// cannot be told in a text.
pub open spec fn field_value(cf_type: Seq<char>, val: Seq<char>, number: Option<JsonView>) -> Option<
    JsonView,
> {
    if named_types().contains(cf_type) {
        Some(wrapped(takes_list(cf_type), single("name"@, val)))
    } else if cf_type == "StateIssueCustomField"@ || cf_type == "StateMachineIssueCustomField"@ {
        Some(single("name"@, val))
    } else if cf_type == "SingleUserIssueCustomField"@ || cf_type == "MultiUserIssueCustomField"@ {
        Some(wrapped(takes_list(cf_type), single("login"@, val)))
    } else if cf_type == "TextIssueCustomField"@ {
        Some(single("text"@, val))
    } else if cf_type == "PeriodIssueCustomField"@ {
        Some(single("presentation"@, val))
    } else if cf_type == "SimpleIssueCustomField"@ {
        Some(plain_value(val, number))
    } else {
        None
    }
}

/// The entry that gives the field `name` of the type `cf_type` the value told by the
/// text `raw`, given what that text, trimmed, is as a number that need not be whole.
/// Nothing for a blank text.
pub open spec fn field_entry(
    name: Seq<char>,
    cf_type: Seq<char>,
    raw: Seq<char>,
    number: Option<JsonView>,
) -> Option<JsonView> {
    let val = text::trimmed(raw);
    if val.len() == 0 {
        None
    } else {
        match field_value(cf_type, val, number) {
            None => None,
            Some(v) => Some(
                JsonView::Object(
                    Map::empty().insert("name"@, JsonView::Text(name)).insert(
                        "$type"@,
                        JsonView::Text(cf_type),
                    ).insert("value"@, v),
                ),
            ),
        }
    }
}

/// The entry that gives the field `name` of the type `cf_type` the value told by the
/// text `raw`.
pub open spec fn entry(name: Seq<char>, cf_type: Seq<char>, raw: Seq<char>) -> Option<JsonView> {
    field_entry(name, cf_type, raw, wire::as_number(text::trimmed(raw)))
}

/// What the id of a field type says: the kind of value, and whether there can be
/// several.
pub open spec fn type_parts(type_id: Seq<char>) -> (Seq<char>, bool) {
    if "[*]"@.is_suffix_of(type_id) {
        (type_id.take(type_id.len() - 3), true)
    } else if "[1]"@.is_suffix_of(type_id) {
        (type_id.take(type_id.len() - 3), false)
    } else {
        (type_id, false)
    }
}

/// `one` or `several`, as `multi` says.
pub open spec fn by_count(multi: bool, one: Seq<char>, several: Seq<char>) -> Option<Seq<char>> {
    Some(
        if multi {
            several
        } else {
            one
        },
    )
}

/// The type of the fields whose field type has the id `type_id`.
pub open spec fn type_of_id(type_id: Seq<char>) -> Option<Seq<char>> {
    let (base, multi) = type_parts(type_id);
    if base == "enum"@ {
        by_count(multi, "SingleEnumIssueCustomField"@, "MultiEnumIssueCustomField"@)
    } else if base == "state"@ {
        Some("StateIssueCustomField"@)
    } else if base == "user"@ {
        by_count(multi, "SingleUserIssueCustomField"@, "MultiUserIssueCustomField"@)
    } else if base == "ownedField"@ {
        by_count(multi, "SingleOwnedIssueCustomField"@, "MultiOwnedIssueCustomField"@)
    } else if base == "version"@ {
        by_count(multi, "SingleVersionIssueCustomField"@, "MultiVersionIssueCustomField"@)
    } else if base == "build"@ {
        by_count(multi, "SingleBuildIssueCustomField"@, "MultiBuildIssueCustomField"@)
    } else if base == "group"@ {
        by_count(multi, "SingleGroupIssueCustomField"@, "MultiGroupIssueCustomField"@)
    } else if base == "text"@ {
        Some("TextIssueCustomField"@)
    } else if base == "period"@ {
        Some("PeriodIssueCustomField"@)
    } else if base == "integer"@ || base == "float"@ || base == "string"@ {
        Some("SimpleIssueCustomField"@)
    } else {
        None
    }
}

/// The name and the type of the field that `f` configures in a project.
pub open spec fn configured_field(f: JsonView) -> Option<(Seq<char>, Seq<char>)> {
    let field = f.member("field"@);
    match (field.member("name"@).text(), field.member("fieldType"@).member("id"@).text()) {
        (Some(n), Some(id)) => match type_of_id(id) {
            Some(t) => Some((n, t)),
            None => None,
        },
        _ => None,
    }
}

/// The names and the types of the fields that `s` configures.
pub open spec fn configured_fields(s: Seq<JsonView>) -> Seq<(Seq<char>, Seq<char>)>
    decreases s.len(),
{
    if s.len() == 0 {
        Seq::empty()
    } else {
        let head = configured_fields(s.drop_last());
        match configured_field(s.last()) {
            Some(p) => head.push(p),
            None => head,
        }
    }
}

/// The types of the fields `s` by name; of a name that occurs twice, the first.
pub open spec fn seen_fields(s: Seq<JsonView>) -> Map<Seq<char>, Seq<char>>
    decreases s.len(),
{
    if s.len() == 0 {
        Map::empty()
    } else {
        let m = seen_fields(s.drop_last());
        match (s.last().member("name"@).text(), s.last().member("$type"@).text()) {
            (Some(n), Some(t)) => if m.contains_key(n) {
                m
            } else {
                m.insert(n, t)
            },
            _ => m,
        }
    }
}

/// The custom fields of the issues `s`, one issue behind the other.
pub open spec fn all_fields(s: Seq<JsonView>) -> Seq<JsonView>
    decreases s.len(),
{
    if s.len() == 0 {
        Seq::empty()
    } else {
        all_fields(s.drop_last()) + s.last().member("customFields"@).items()
    }
}

/// The texts of the values of `m`.
pub open spec fn value_texts(m: Map<Seq<char>, String>) -> Map<Seq<char>, Seq<char>> {
    m.map_values(|t: String| t@)
}

/// The entries of `m`, by name.
pub open spec fn entries_of(m: Map<Seq<char>, Seq<char>>) -> Seq<(Seq<char>, Seq<char>)> {
    sorted::in_order(m.dom()).map_values(|n: Seq<char>| (n, m[n]))
}

/// The names and the types of a project's custom fields: as the project is
/// configured, where that can be read and says anything, else as they are seen on
/// some of its issues.
pub open spec fn field_types(config: Option<JsonView>, issues: Option<JsonView>) -> Seq<
    (Seq<char>, Seq<char>),
> {
    let configured = match config {
        Some(c) => configured_fields(c.items()),
        None => Seq::empty(),
    };
    if configured.len() > 0 {
        configured
    } else {
        match issues {
            Some(v) => entries_of(seen_fields(all_fields(v.items()))),
            None => Seq::empty(),
        }
    }
}

/// Whether `given` starts with the whole words `name`, in whatever case.
pub open spec fn names_field(given: Seq<char>, name: Seq<char>) -> bool {
    text::lowered(given) == text::lowered(name) || (text::lowered(name) + " "@).is_prefix_of(
        text::lowered(given),
    )
}

/// The field that `given` names: the one with the longest name, of equally long ones
/// the last.
pub open spec fn field_named(defs: Seq<(Seq<char>, Seq<char>)>, given: Seq<char>) -> Option<
    (Seq<char>, Seq<char>),
>
    decreases defs.len(),
{
    if defs.len() == 0 {
        None
    } else {
        let d = defs.last();
        match field_named(defs.drop_last(), given) {
            None => if names_field(given, d.0) {
                Some(d)
            } else {
                None
            },
            Some(b) => if names_field(given, d.0) && d.0.len() >= b.0.len() {
                Some(d)
            } else {
                Some(b)
            },
        }
    }
}

/// The entry that the words `given` ask for: a field's name, and behind it the value.
pub open spec fn asked_entry(defs: Seq<(Seq<char>, Seq<char>)>, given: Seq<char>) -> Option<
    JsonView,
> {
    match field_named(defs, given) {
        None => None,
        Some(d) => entry(d.0, d.1, given.skip(d.0.len() as int)),
    }
}

/// The entries that all of `given` ask for; nothing where one cannot be told.
pub open spec fn asked_entries(
    defs: Seq<(Seq<char>, Seq<char>)>,
    given: Seq<Seq<char>>,
) -> Option<Seq<JsonView>>
    decreases given.len(),
{
    if given.len() == 0 {
        Some(Seq::empty())
    } else {
        match (asked_entries(defs, given.drop_last()), asked_entry(defs, given.last())) {
            (Some(head), Some(e)) => Some(head.push(e)),
            _ => None,
        }
    }
}

/// The `customFields` of an issue to create, for the fields `given`; nothing where
/// no field is known or one of them cannot be told.
pub open spec fn custom_fields(
    defs: Seq<(Seq<char>, Seq<char>)>,
    given: Seq<Seq<char>>,
) -> Option<JsonView> {
    if defs.len() == 0 {
        None
    } else {
        match asked_entries(defs, given) {
            Some(a) => Some(JsonView::Array(a)),
            None => None,
        }
    }
}

// ---- laws ----

/// Every field type that a project's configuration can name takes a value for every
/// text that is not blank.
pub proof fn law_configured_types_take_values(
    type_id: Seq<char>,
    name: Seq<char>,
    raw: Seq<char>,
    number: Option<JsonView>,
)
    requires
        type_of_id(type_id) is Some,
        text::trimmed(raw).len() > 0,
    ensures
        field_entry(name, type_of_id(type_id)->0, raw, number) is Some,
{
    let names = named_types();
    assert(forall|i: int| 0 <= i < 10 ==> names.contains(#[trigger] names[i]));
    assert(names[0] == "SingleEnumIssueCustomField"@);
    assert(names[1] == "MultiEnumIssueCustomField"@);
    assert(names[2] == "SingleOwnedIssueCustomField"@);
    assert(names[3] == "MultiOwnedIssueCustomField"@);
    assert(names[4] == "SingleVersionIssueCustomField"@);
    assert(names[5] == "MultiVersionIssueCustomField"@);
    assert(names[6] == "SingleBuildIssueCustomField"@);
    assert(names[7] == "MultiBuildIssueCustomField"@);
    assert(names[8] == "SingleGroupIssueCustomField"@);
    assert(names[9] == "MultiGroupIssueCustomField"@);
}

/// The fields given are told all or not at all: each by its own entry, in the order
/// given.
pub proof fn law_all_fields_are_told_or_none(
    defs: Seq<(Seq<char>, Seq<char>)>,
    given: Seq<Seq<char>>,
)
    ensures
        match asked_entries(defs, given) {
            Some(a) => a.len() == given.len() && forall|i: int|
                0 <= i < given.len() ==> asked_entry(defs, #[trigger] given[i]) == Some(a[i]),
            None => exists|i: int|
                0 <= i < given.len() && asked_entry(defs, #[trigger] given[i]) is None,
        },
    decreases given.len(),
{
    if given.len() > 0 {
        let head = given.drop_last();
        law_all_fields_are_told_or_none(defs, head);
        assert forall|i: int| 0 <= i < head.len() implies #[trigger] given[i] == head[i] by {}
        match asked_entries(defs, head) {
            Some(_) => {
                if asked_entry(defs, given.last()) is None {
                    assert(given[given.len() - 1] == given.last());
                }
            },
            None => {
                let i = choose|i: int|
                    0 <= i < head.len() && asked_entry(defs, #[trigger] head[i]) is None;
                assert(given[i] == head[i]);
            },
        }
    }
}

/// A field takes a list where its type says so, and only there; the value of a plain
/// field is as the text has it.
pub proof fn law_lists_are_for_multiple_values(
    cf_type: Seq<char>,
    val: Seq<char>,
    number: Option<JsonView>,
)
    requires
        field_value(cf_type, val, number) is Some,
        cf_type != "SimpleIssueCustomField"@,
    ensures
        field_value(cf_type, val, number)->0 is Array <==> takes_list(cf_type),
{
    reveal_strlit("Multi");
    reveal_strlit("StateIssueCustomField");
    reveal_strlit("StateMachineIssueCustomField");
    reveal_strlit("TextIssueCustomField");
    reveal_strlit("PeriodIssueCustomField");
    assert("Multi"@[0] == 'M');
    assert("StateIssueCustomField"@[0] == 'S');
    assert("StateMachineIssueCustomField"@[0] == 'S');
    assert("TextIssueCustomField"@[0] == 'T');
    assert("PeriodIssueCustomField"@[0] == 'P');
}

/// What is sent of a field can be written as JSON text, provided that what its text is
/// as a number can.
pub proof fn law_entries_can_be_written(
    name: Seq<char>,
    cf_type: Seq<char>,
    raw: Seq<char>,
    number: Option<JsonView>,
)
    requires
        number matches Some(n) ==> wire::writable(n),
    ensures
        field_entry(name, cf_type, raw, number) matches Some(v) ==> wire::writable(v),
{
    let val = text::trimmed(raw);
    if let Some(v) = field_entry(name, cf_type, raw, number) {
        lemma_single_writable("name"@, val);
        lemma_single_writable("login"@, val);
        lemma_single_writable("text"@, val);
        lemma_single_writable("presentation"@, val);
        let value = field_value(cf_type, val, number)->0;
        if value is Array {
            if cf_type != "SimpleIssueCustomField"@ || named_types().contains(cf_type) {
                wire::lemma_writable_array(value);
            }
        }
        assert(wire::writable(value));
        assert forall|k: Seq<char>| #[trigger] v->Object_0.contains_key(k) implies wire::writable(
            v->Object_0[k],
        ) by {}
        wire::lemma_writable_object(v);
    }
}

/// An object with a single text can be written.
pub proof fn lemma_single_writable(key: Seq<char>, val: Seq<char>)
    ensures
        wire::writable(single(key, val)),
{
    let v = single(key, val);
    assert forall|k: Seq<char>| #[trigger] v->Object_0.contains_key(k) implies wire::writable(
        v->Object_0[k],
    ) by {}
    wire::lemma_writable_object(v);
}

/// A custom field is found by its name in whatever case.
pub proof fn law_field_names_ignore_case(issue: JsonView, a: Seq<char>, b: Seq<char>)
    requires
        text::alike(a, b),
    ensures
        shown_field(issue, a) == shown_field(issue, b),
{
    let p = |f: JsonView| lookup::is_called(f, "name"@, a);
    let q = |f: JsonView| lookup::is_called(f, "name"@, b);
    assert(p =~= q);
}

/// The field that is picked is one of the project's, is named by the words given, and
/// none of the others that they name has a longer name.
pub proof fn law_longest_name_wins(defs: Seq<(Seq<char>, Seq<char>)>, given: Seq<char>)
    ensures
        match field_named(defs, given) {
            None => forall|i: int| 0 <= i < defs.len() ==> !names_field(given, (#[trigger] defs[i]).0),
            Some(d) => {
                &&& defs.contains(d)
                &&& names_field(given, d.0)
                &&& forall|i: int|
                    0 <= i < defs.len() && names_field(given, (#[trigger] defs[i]).0)
                        ==> defs[i].0.len() <= d.0.len()
            },
        },
    decreases defs.len(),
{
    if defs.len() > 0 {
        let head = defs.drop_last();
        law_longest_name_wins(head, given);
        assert(defs =~= head.push(defs.last()));
        assert(defs[defs.len() - 1] == defs.last());
        if field_named(head, given) is Some {
            let b = field_named(head, given)->0;
            let i = choose|i: int| 0 <= i < head.len() && head[i] == b;
            assert(defs[i] == b);
        }
        assert forall|i: int| 0 <= i < defs.len() - 1 implies (#[trigger] defs[i]) == head[i] by {}
    }
}

// ---- operations: showing ----

/// How the value of a custom field is shown; nothing where it is empty.
pub fn cf_value(v: &Json) -> (r: Option<String>)
    ensures
        text::opt_text(r) == shown(v@),
    decreases v,
{
    match v {
        Json::Null => None,
        Json::Bool(b) => Some(wire::to_text(v)),
        Json::Integer(i) => if *i > 100_000_000_000 && *i <= i64::MAX as i128 {
            Some(date::date(v))
        } else {
            Some(number::signed_text(*i))
        },
        Json::Float(t) => Some(t.clone()),
        Json::Text(t) => Some(wire::to_text(v)),
        Json::Array(a) => {
            let mut parts: Vec<String> = Vec::new();
            let mut i: usize = 0;
            let ghost items = json::array_view(a@);
            assert(v@ == JsonView::Array(items));
            assert(items.take(0) =~= Seq::empty());
            assert(text::texts(parts@) =~= Seq::empty());
            while i < a.len()
                invariant
                    i <= a@.len(),
                    v == Json::Array(*a),
                    items == json::array_view(a@),
                    text::texts(parts@) == shown_items(items.take(i as int)),
                decreases a@.len() - i,
            {
                assert(decreases_to!(v => v->Array_0));
                assert(decreases_to!(v->Array_0 => a@));
                assert(decreases_to!(a@ => a@[i as int]));
                let ghost before = parts@;
                assert(items.take(i + 1).drop_last() =~= items.take(i as int));
                assert(items.take(i + 1).last() == a@[i as int]@);
                match cf_value(&a[i]) {
                    Some(t) => {
                        parts.push(t);
                        assert(text::texts(parts@) =~= text::texts(before).push(t@));
                    },
                    None => {},
                }
                i += 1;
            }
            assert(items.take(items.len() as int) =~= items);
            if parts.len() == 0 {
                None
            } else {
                Some(text::join(&parts, ","))
            }
        },
        Json::Object(o) => {
            let ghost m = json::object_view(o@);
            assert(v@ == JsonView::Object(m));
            let found = if v.has("login") {
                v.member("login")
            } else if v.has("name") {
                v.member("name")
            } else {
                v.member("text")
            };
            match found.as_str() {
                Some(t) => Some(t.to_owned()),
                None => None,
            }
        },
    }
}

/// How the custom field `name` of an issue is shown.
pub fn cf_get(issue: &Json, name: &str) -> (r: Option<String>)
    ensures
        text::opt_text(r) == shown_field(issue@, name@),
{
    let named = |f: &Json| -> (b: bool)
        ensures
            b == lookup::is_called(f@, "name"@, name@),
        { lookup::called(f, "name", name) };
    match json::find_where(
        issue.member("customFields").items(),
        named,
        Ghost(|f: JsonView| lookup::is_called(f, "name"@, name@)),
    ) {
        Some(f) => cf_value(f.member("value")),
        None => None,
    }
}

// ---- operations: sending ----

/// The object with the single member `key`, a text.
pub fn single_member(key: &str, val: &str) -> (r: Json)
    ensures
        r@ == single(key@, val@),
{
    Json::object().with(key, Json::text(val))
}

/// `v`, as a list of one where `multi` says so.
fn wrap(multi: bool, v: Json) -> (r: Json)
    ensures
        r@ == wrapped(multi, v@),
{
    if multi {
        let mut a: Vec<Json> = Vec::new();
        a.push(v);
        assert(json::array_view(a@) =~= seq![v@]);
        Json::Array(a)
    } else {
        v
    }
}

/// Whether the values of a field of the type `cf_type` are told by name, one or
/// several.
fn told_by_name(cf_type: &str) -> (r: bool)
    ensures
        r == named_types().contains(cf_type@),
{
    let names: [&str; 10] = [
        "SingleEnumIssueCustomField",
        "MultiEnumIssueCustomField",
        "SingleOwnedIssueCustomField",
        "MultiOwnedIssueCustomField",
        "SingleVersionIssueCustomField",
        "MultiVersionIssueCustomField",
        "SingleBuildIssueCustomField",
        "MultiBuildIssueCustomField",
        "SingleGroupIssueCustomField",
        "MultiGroupIssueCustomField",
    ];
    let ghost all = named_types();
    assert(forall|k: int| 0 <= k < 10 ==> (#[trigger] names@[k])@ == all[k]);
    let mut i: usize = 0;
    while i < 10
        invariant
            i <= 10,
            names@.len() == 10,
            all.len() == 10,
            all == named_types(),
            forall|k: int| 0 <= k < 10 ==> (#[trigger] names@[k])@ == all[k],
            forall|k: int| 0 <= k < i ==> all[k] != cf_type@,
        decreases 10 - i,
    {
        if text::same(names[i], cf_type) {
            assert(all[i as int] == cf_type@);
            return true;
        }
        i += 1;
    }
    false
}

/// The value of a plain field, given what `val` is as a number that need not be
/// whole.
pub fn simple_value(val: &str, number: Option<Json>) -> (r: Json)
    ensures
        r@ == plain_value(val@, json::opt_json(number)),
{
    match number::parse_i64(val) {
        Some(i) => Json::Integer(i as i128),
        None => match number {
            Some(n) => n,
            None => Json::text(val),
        },
    }
}

/// The entry that gives the field `name` of the type `cf_type` the value told by the
/// text `raw`, given what that text, trimmed, is as a number that need not be whole.
pub fn issue_cf_entry_of(name: &str, cf_type: &str, raw: &str, number: Option<Json>) -> (r: Option<
    Json,
>)
    ensures
        json::opt_json(r) == field_entry(name@, cf_type@, raw@, json::opt_json(number)),
{
    let val = text::trim(raw);
    if val.as_str().is_empty() {
        return None;
    }
    let multi = text::starts_with(cf_type, "Multi");
    let value = if told_by_name(cf_type) {
        wrap(multi, single_member("name", val.as_str()))
    } else if text::same(cf_type, "StateIssueCustomField") || text::same(
        cf_type,
        "StateMachineIssueCustomField",
    ) {
        single_member("name", val.as_str())
    } else if text::same(cf_type, "SingleUserIssueCustomField") || text::same(
        cf_type,
        "MultiUserIssueCustomField",
    ) {
        wrap(multi, single_member("login", val.as_str()))
    } else if text::same(cf_type, "TextIssueCustomField") {
        single_member("text", val.as_str())
    } else if text::same(cf_type, "PeriodIssueCustomField") {
        single_member("presentation", val.as_str())
    } else if text::same(cf_type, "SimpleIssueCustomField") {
        simple_value(val.as_str(), number)
    } else {
        return None;
    };
    Some(
        Json::object().with("name", Json::text(name)).with("$type", Json::text(cf_type)).with(
            "value",
            value,
        ),
    )
}

/// The entry that gives the field `name` of the type `cf_type` the value told by the
/// text `raw`.
pub fn issue_cf_entry(name: &str, cf_type: &str, raw: &str) -> (r: Option<Json>)
    ensures
        json::opt_json(r) == entry(name@, cf_type@, raw@),
        r matches Some(v) ==> wire::writable(v@),
{
    let val = text::trim(raw);
    let number = wire::parse_double(val.as_str());
    proof {
        law_entries_can_be_written(name@, cf_type@, raw@, json::opt_json(number));
    }
    issue_cf_entry_of(name, cf_type, raw, number)
}

/// The type of the fields whose field type has the id `type_id`.
pub fn fieldtype_id_to_cf_type(type_id: &str) -> (r: Option<&'static str>)
    ensures
        text::opt_str(r) == type_of_id(type_id@),
{
    proof {
        reveal_strlit("[*]");
        reveal_strlit("[1]");
    }
    let n = type_id.unicode_len();
    let (base, multi) = if text::ends_with(type_id, "[*]") {
        (text::take(type_id, n - 3), true)
    } else if text::ends_with(type_id, "[1]") {
        (text::take(type_id, n - 3), false)
    } else {
        (type_id.to_owned(), false)
    };
    let base = base.as_str();
    assert((base@, multi) == type_parts(type_id@));
    if text::same(base, "enum") {
        Some(
            if multi {
                "MultiEnumIssueCustomField"
            } else {
                "SingleEnumIssueCustomField"
            },
        )
    } else if text::same(base, "state") {
        Some("StateIssueCustomField")
    } else if text::same(base, "user") {
        Some(
            if multi {
                "MultiUserIssueCustomField"
            } else {
                "SingleUserIssueCustomField"
            },
        )
    } else if text::same(base, "ownedField") {
        Some(
            if multi {
                "MultiOwnedIssueCustomField"
            } else {
                "SingleOwnedIssueCustomField"
            },
        )
    } else if text::same(base, "version") {
        Some(
            if multi {
                "MultiVersionIssueCustomField"
            } else {
                "SingleVersionIssueCustomField"
            },
        )
    } else if text::same(base, "build") {
        Some(
            if multi {
                "MultiBuildIssueCustomField"
            } else {
                "SingleBuildIssueCustomField"
            },
        )
    } else if text::same(base, "group") {
        Some(
            if multi {
                "MultiGroupIssueCustomField"
            } else {
                "SingleGroupIssueCustomField"
            },
        )
    } else if text::same(base, "text") {
        Some("TextIssueCustomField")
    } else if text::same(base, "period") {
        Some("PeriodIssueCustomField")
    } else if text::same(base, "integer") || text::same(base, "float") || text::same(
        base,
        "string",
    ) {
        Some("SimpleIssueCustomField")
    } else {
        None
    }
}

/// The names and the types of the fields that a project's configuration lists.
fn configured_field_types(config: &Json) -> (r: Vec<(String, String)>)
    ensures
        text::pairs(r@) == configured_fields(config@.items()),
{
    let items = config.items();
    let ghost all = json::array_view(items@);
    let mut defs: Vec<(String, String)> = Vec::new();
    let mut i: usize = 0;
    assert(all.take(0) =~= Seq::empty());
    assert(text::pairs(defs@) =~= Seq::empty());
    while i < items.len()
        invariant
            i <= items@.len(),
            all == json::array_view(items@),
            text::pairs(defs@) == configured_fields(all.take(i as int)),
        decreases items@.len() - i,
    {
        let ghost before = defs@;
        assert(all.take(i + 1).drop_last() =~= all.take(i as int));
        assert(all.take(i + 1).last() == items@[i as int]@);
        let field = items[i].member("field");
        if let (Some(n), Some(id)) = (
            field.member("name").as_str(),
            field.member("fieldType").member("id").as_str(),
        ) {
            if let Some(t) = fieldtype_id_to_cf_type(id) {
                defs.push((n.to_owned(), t.to_owned()));
                assert(text::pairs(defs@) =~= text::pairs(before).push((n@, t@)));
            }
        }
        i += 1;
    }
    assert(all.take(all.len() as int) =~= all);
    defs
}

/// Adds the fields `fields` to those seen before them.
fn see_fields(seen: &mut TextMap<String>, fields: &[Json], Ghost(before): Ghost<Seq<JsonView>>)
    requires
        value_texts(old(seen)@) == seen_fields(before),
    ensures
        value_texts(final(seen)@) == seen_fields(before + json::array_view(fields@)),
{
    let ghost all = json::array_view(fields@);
    let mut i: usize = 0;
    assert(before + all.take(0) =~= before);
    while i < fields.len()
        invariant
            i <= fields@.len(),
            all == json::array_view(fields@),
            value_texts(seen@) == seen_fields(before + all.take(i as int)),
        decreases fields@.len() - i,
    {
        let ghost m = seen@;
        assert((before + all.take(i + 1)).drop_last() =~= before + all.take(i as int));
        assert((before + all.take(i + 1)).last() == fields@[i as int]@);
        if let (Some(n), Some(t)) = (
            fields[i].member("name").as_str(),
            fields[i].member("$type").as_str(),
        ) {
            assert(value_texts(m).contains_key(n@) == m.contains_key(n@));
            if !seen.contains_key(n) {
                seen.insert(n.to_owned(), t.to_owned());
                assert(value_texts(seen@) =~= value_texts(m).insert(n@, t@));
            }
        }
        i += 1;
    }
    assert(all.take(all.len() as int) =~= all);
}

/// The names and the types of the fields seen on the issues `issues`, by name.
fn seen_field_types(issues: &Json) -> (r: Vec<(String, String)>)
    ensures
        text::pairs(r@) == entries_of(seen_fields(all_fields(issues@.items()))),
{
    let items = issues.items();
    let ghost all = json::array_view(items@);
    let mut seen: TextMap<String> = TextMap::new();
    let mut i: usize = 0;
    assert(all.take(0) =~= Seq::empty());
    assert(value_texts(seen@) =~= Map::empty());
    while i < items.len()
        invariant
            i <= items@.len(),
            all == json::array_view(items@),
            value_texts(seen@) == seen_fields(all_fields(all.take(i as int))),
        decreases items@.len() - i,
    {
        assert(all.take(i + 1).drop_last() =~= all.take(i as int));
        assert(all.take(i + 1).last() == items@[i as int]@);
        let fields = items[i].member("customFields").items();
        see_fields(&mut seen, fields, Ghost(all_fields(all.take(i as int))));
        i += 1;
    }
    assert(all.take(all.len() as int) =~= all);
    let ghost m = value_texts(seen@);
    assert(m.dom() =~= seen@.dom());
    let ghost names = sorted::in_order(m.dom());
    let mut r: Vec<(String, String)> = Vec::new();
    let n = seen.len();
    let mut k: usize = 0;
    assert(text::pairs(r@) =~= entries_of(m).take(0));
    while k < n
        invariant
            k <= n,
            n == names.len(),
            names == sorted::in_order(m.dom()),
            m == value_texts(seen@),
            m.dom() == seen@.dom(),
            text::pairs(r@) == entries_of(m).take(k as int),
        decreases n - k,
    {
        let ghost before = r@;
        r.push((seen.key_at(k).clone(), seen.value_at(k).clone()));
        assert(text::pairs(r@) =~= text::pairs(before).push(entries_of(m)[k as int]));
        assert(entries_of(m).take(k + 1) =~= entries_of(m).take(k as int).push(
            entries_of(m)[k as int],
        ));
        k += 1;
    }
    assert(entries_of(m).take(n as int) =~= entries_of(m));
    r
}

/// The names and the types of a project's custom fields, from the project's
/// configuration and from some of its issues, as far as each could be read.
pub fn project_field_types(config: Option<&Json>, issues: Option<&Json>) -> (r: Vec<
    (String, String),
>)
    ensures
        text::pairs(r@) == field_types(json::opt_ref(config), json::opt_ref(issues)),
{
    if let Some(c) = config {
        let defs = configured_field_types(c);
        assert(text::pairs(defs@).len() == defs@.len());
        if defs.len() > 0 {
            return defs;
        }
    }
    match issues {
        Some(v) => seen_field_types(v),
        None => {
            let r: Vec<(String, String)> = Vec::new();
            assert(text::pairs(r@) =~= Seq::empty());
            r
        },
    }
}

/// Whether `given` starts with the whole words `name`, in whatever case.
fn starts_with_field(given: &str, name: &str) -> (r: bool)
    ensures
        r == names_field(given@, name@),
{
    let g = text::lower(given);
    let n = text::lower(name);
    text::same(g.as_str(), n.as_str()) || text::starts_with(
        g.as_str(),
        text::cat(n.as_str(), " ").as_str(),
    )
}

/// The place among `defs` of the field that `given` names.
fn place_of_field(defs: &[(String, String)], given: &str) -> (r: Option<usize>)
    ensures
        match r {
            None => field_named(text::pairs(defs@), given@) is None,
            Some(k) => k < defs@.len() && field_named(text::pairs(defs@), given@) == Some(
                text::pairs(defs@)[k as int],
            ),
        },
{
    let ghost all = text::pairs(defs@);
    let mut best: Option<usize> = None;
    let mut i: usize = 0;
    assert(all.take(0) =~= Seq::empty());
    while i < defs.len()
        invariant
            i <= defs@.len(),
            all == text::pairs(defs@),
            match best {
                None => field_named(all.take(i as int), given@) is None,
                Some(k) => k < i && field_named(all.take(i as int), given@) == Some(all[k as int]),
            },
        decreases defs@.len() - i,
    {
        assert(all.take(i + 1).drop_last() =~= all.take(i as int));
        assert(all.take(i + 1).last() == all[i as int]);
        if starts_with_field(given, defs[i].0.as_str()) {
            best = match best {
                None => Some(i),
                Some(k) => if defs[i].0.as_str().unicode_len() >= defs[k].0.as_str().unicode_len() {
                    Some(i)
                } else {
                    Some(k)
                },
            };
        }
        i += 1;
    }
    assert(all.take(all.len() as int) =~= all);
    best
}

/// A text that starts with the words `name` is at least as long as they are.
proof fn lemma_name_fits(given: Seq<char>, name: Seq<char>)
    requires
        names_field(given, name),
    ensures
        name.len() <= given.len(),
{
    assert(text::lowered(given).len() == given.len());
    assert(text::lowered(name).len() == name.len());
}

/// Once one of `given` cannot be told, no longer list of them can.
proof fn lemma_untold(defs: Seq<(Seq<char>, Seq<char>)>, given: Seq<Seq<char>>, i: int)
    requires
        0 <= i <= given.len(),
        asked_entries(defs, given.take(i)) is None,
    ensures
        asked_entries(defs, given) is None,
    decreases given.len(),
{
    if i < given.len() {
        assert(given.drop_last().take(i) =~= given.take(i));
        lemma_untold(defs, given.drop_last(), i);
    } else {
        assert(given.take(i) =~= given);
    }
}

/// The `customFields` of an issue to create in a project with the fields `defs`, for
/// the fields asked for in the way of commands (`State In Progress`).
pub fn resolve_custom_fields(defs: &[(String, String)], fields: &[String]) -> (r: Option<Json>)
    ensures
        json::opt_json(r) == custom_fields(text::pairs(defs@), text::texts(fields@)),
        r matches Some(v) ==> wire::writable(v@),
{
    let ghost ds = text::pairs(defs@);
    let ghost given = text::texts(fields@);
    if defs.len() == 0 {
        return None;
    }
    let mut out: Vec<Json> = Vec::new();
    let mut i: usize = 0;
    assert(given.take(0) =~= Seq::empty());
    assert(json::array_view(out@) =~= Seq::empty());
    while i < fields.len()
        invariant
            i <= fields@.len(),
            defs@.len() > 0,
            ds == text::pairs(defs@),
            given == text::texts(fields@),
            asked_entries(ds, given.take(i as int)) == Some(json::array_view(out@)),
            forall|k: int| 0 <= k < out@.len() ==> wire::writable((#[trigger] out@[k])@),
        decreases fields@.len() - i,
    {
        let ghost before = out@;
        assert(given.take(i + 1).drop_last() =~= given.take(i as int));
        assert(given.take(i + 1).last() == fields@[i as int]@);
        let asked = match place_of_field(defs, fields[i].as_str()) {
            None => None,
            Some(k) => {
                proof {
                    law_longest_name_wins(ds, fields@[i as int]@);
                    lemma_name_fits(fields@[i as int]@, ds[k as int].0);
                }
                let name = defs[k].0.as_str();
                let value = text::skip(fields[i].as_str(), name.unicode_len());
                issue_cf_entry(name, defs[k].1.as_str(), value.as_str())
            },
        };
        assert(json::opt_json(asked) == asked_entry(ds, fields@[i as int]@));
        match asked {
            None => {
                proof {
                    lemma_untold(ds, given, i + 1);
                }
                return None;
            },
            Some(e) => {
                out.push(e);
                assert(json::array_view(out@) =~= json::array_view(before).push(e@));
            },
        }
        i += 1;
    }
    assert(given.take(given.len() as int) =~= given);
    let r = Json::Array(out);
    proof {
        assert(r@ == JsonView::Array(json::array_view(out@)));
        wire::lemma_writable_array(r@);
    }
    Some(r)
}

} // verus!
