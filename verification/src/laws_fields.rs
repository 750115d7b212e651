//! How fields are set: their types, the values they take, and the words that name them.

use vstd::prelude::*;
use crate::fields;
use crate::json::JsonView;
use crate::number;
use crate::sorted;
use crate::text;
use crate::wire;

verus! {

/// The object with the one member `key`, a text.
pub open spec fn object_of(key: Seq<char>, t: Seq<char>) -> JsonView {
    JsonView::Object(map![key => JsonView::Text(t)])
}

/// The list of one value.
pub open spec fn list_of(v: JsonView) -> JsonView {
    JsonView::Array(seq![v])
}

proof fn lemma_named(t: Seq<char>)
    ensures
        fields::named_types().contains(t) <==> {
            ||| t == "SingleEnumIssueCustomField"@
            ||| t == "MultiEnumIssueCustomField"@
            ||| t == "SingleOwnedIssueCustomField"@
            ||| t == "MultiOwnedIssueCustomField"@
            ||| t == "SingleVersionIssueCustomField"@
            ||| t == "MultiVersionIssueCustomField"@
            ||| t == "SingleBuildIssueCustomField"@
            ||| t == "MultiBuildIssueCustomField"@
            ||| t == "SingleGroupIssueCustomField"@
            ||| t == "MultiGroupIssueCustomField"@
        },
{
    let names = fields::named_types();
    assert(names.len() == 10);
    assert(names[0] == "SingleEnumIssueCustomField"@);
    assert(names[1] == "MultiEnumIssueCustomField"@);
    assert(names[2] == "SingleOwnedIssueCustomField"@);
    assert(names[3] == "MultiOwnedIssueCustomField"@);
    assert(names[4] == "SingleVersionIssueCustomField"@);
    assert(names[5] == "MultiVersionIssueCustomField"@);
    assert(names[6] == "SingleBuildIssueCustomField"@);
    assert(names[7] == "MultiBuildIssueCustomField"@);
    assert(names[8] == "SingleGroupIssueCustomField"@);
    assert(names[9] == "MultiGroupIssueCustomField"@);
    assert(forall|i: int| 0 <= i < 10 ==> names.contains(#[trigger] names[i]));
    if names.contains(t) {
        let i = choose|i: int| 0 <= i < names.len() && names[i] == t;
        assert(i == 0 || i == 1 || i == 2 || i == 3 || i == 4 || i == 5 || i == 6 || i == 7 || i
            == 8 || i == 9);
    }
}

/// The types of several values start with one word, and no other does.
proof fn lemma_multi()
    ensures
        fields::takes_list("MultiEnumIssueCustomField"@),
        fields::takes_list("MultiOwnedIssueCustomField"@),
        fields::takes_list("MultiVersionIssueCustomField"@),
        fields::takes_list("MultiBuildIssueCustomField"@),
        fields::takes_list("MultiGroupIssueCustomField"@),
        fields::takes_list("MultiUserIssueCustomField"@),
        !fields::takes_list("SingleEnumIssueCustomField"@),
        !fields::takes_list("SingleOwnedIssueCustomField"@),
        !fields::takes_list("SingleVersionIssueCustomField"@),
        !fields::takes_list("SingleBuildIssueCustomField"@),
        !fields::takes_list("SingleGroupIssueCustomField"@),
        !fields::takes_list("SingleUserIssueCustomField"@),
{
    reveal_strlit("Multi");
    reveal_strlit("MultiEnumIssueCustomField");
    reveal_strlit("MultiOwnedIssueCustomField");
    reveal_strlit("MultiVersionIssueCustomField");
    reveal_strlit("MultiBuildIssueCustomField");
    reveal_strlit("MultiGroupIssueCustomField");
    reveal_strlit("MultiUserIssueCustomField");
    reveal_strlit("SingleEnumIssueCustomField");
    reveal_strlit("SingleOwnedIssueCustomField");
    reveal_strlit("SingleVersionIssueCustomField");
    reveal_strlit("SingleBuildIssueCustomField");
    reveal_strlit("SingleGroupIssueCustomField");
    reveal_strlit("SingleUserIssueCustomField");
    assert("Multi"@ =~= "MultiEnumIssueCustomField"@.take(5));
    assert("Multi"@ =~= "MultiOwnedIssueCustomField"@.take(5));
    assert("Multi"@ =~= "MultiVersionIssueCustomField"@.take(5));
    assert("Multi"@ =~= "MultiBuildIssueCustomField"@.take(5));
    assert("Multi"@ =~= "MultiGroupIssueCustomField"@.take(5));
    assert("Multi"@ =~= "MultiUserIssueCustomField"@.take(5));
    assert("Multi"@[0] == 'M');
    assert("SingleEnumIssueCustomField"@[0] == 'S');
    assert("SingleOwnedIssueCustomField"@[0] == 'S');
    assert("SingleVersionIssueCustomField"@[0] == 'S');
    assert("SingleBuildIssueCustomField"@[0] == 'S');
    assert("SingleGroupIssueCustomField"@[0] == 'S');
    assert("SingleUserIssueCustomField"@[0] == 'S');
}

/// No type that is not told by name is one of those that are.
proof fn lemma_other_types()
    ensures
        !fields::named_types().contains("StateIssueCustomField"@),
        !fields::named_types().contains("StateMachineIssueCustomField"@),
        !fields::named_types().contains("SingleUserIssueCustomField"@),
        !fields::named_types().contains("MultiUserIssueCustomField"@),
        !fields::named_types().contains("TextIssueCustomField"@),
        !fields::named_types().contains("PeriodIssueCustomField"@),
        !fields::named_types().contains("SimpleIssueCustomField"@),
        "SingleUserIssueCustomField"@ != "StateIssueCustomField"@,
        "SingleUserIssueCustomField"@ != "StateMachineIssueCustomField"@,
        "MultiUserIssueCustomField"@ != "StateIssueCustomField"@,
        "MultiUserIssueCustomField"@ != "StateMachineIssueCustomField"@,
        "TextIssueCustomField"@[0] == 'T',
        "PeriodIssueCustomField"@[0] == 'P',
        "StateIssueCustomField"@[0] == 'S',
        "StateMachineIssueCustomField"@[0] == 'S',
        "SingleUserIssueCustomField"@[0] == 'S',
        "MultiUserIssueCustomField"@[0] == 'M',
        "SimpleIssueCustomField"@[0] == 'S',
        "SimpleIssueCustomField"@[2] == 'm',
        "StateIssueCustomField"@[2] == 'a',
        "StateMachineIssueCustomField"@[2] == 'a',
        "SingleUserIssueCustomField"@[2] == 'n',
{
    reveal_strlit("MultiEnumIssueCustomField");
    reveal_strlit("MultiOwnedIssueCustomField");
    reveal_strlit("MultiVersionIssueCustomField");
    reveal_strlit("MultiBuildIssueCustomField");
    reveal_strlit("MultiGroupIssueCustomField");
    reveal_strlit("MultiUserIssueCustomField");
    reveal_strlit("SingleEnumIssueCustomField");
    reveal_strlit("SingleOwnedIssueCustomField");
    reveal_strlit("SingleVersionIssueCustomField");
    reveal_strlit("SingleBuildIssueCustomField");
    reveal_strlit("SingleGroupIssueCustomField");
    reveal_strlit("SingleUserIssueCustomField");
    reveal_strlit("StateIssueCustomField");
    reveal_strlit("StateMachineIssueCustomField");
    reveal_strlit("TextIssueCustomField");
    reveal_strlit("PeriodIssueCustomField");
    reveal_strlit("SimpleIssueCustomField");
    lemma_named("StateIssueCustomField"@);
    lemma_named("StateMachineIssueCustomField"@);
    lemma_named("SingleUserIssueCustomField"@);
    lemma_named("MultiUserIssueCustomField"@);
    lemma_named("TextIssueCustomField"@);
    lemma_named("PeriodIssueCustomField"@);
    lemma_named("SimpleIssueCustomField"@);
    assert("SingleEnumIssueCustomField"@[6] == 'E' && "SingleEnumIssueCustomField"@[2] == 'n'
        && "SingleEnumIssueCustomField"@[0] == 'S');
    assert("SingleOwnedIssueCustomField"@[6] == 'O' && "SingleOwnedIssueCustomField"@[2] == 'n'
        && "SingleOwnedIssueCustomField"@[0] == 'S');
    assert("SingleVersionIssueCustomField"@[6] == 'V' && "SingleVersionIssueCustomField"@[2] == 'n'
        && "SingleVersionIssueCustomField"@[0] == 'S');
    assert("SingleBuildIssueCustomField"@[6] == 'B' && "SingleBuildIssueCustomField"@[2] == 'n'
        && "SingleBuildIssueCustomField"@[0] == 'S');
    assert("SingleGroupIssueCustomField"@[6] == 'G' && "SingleGroupIssueCustomField"@[2] == 'n'
        && "SingleGroupIssueCustomField"@[0] == 'S');
    assert("SingleUserIssueCustomField"@[6] == 'U');
    assert("MultiEnumIssueCustomField"@[5] == 'E' && "MultiEnumIssueCustomField"@[0] == 'M');
    assert("MultiOwnedIssueCustomField"@[5] == 'O' && "MultiOwnedIssueCustomField"@[0] == 'M');
    assert("MultiVersionIssueCustomField"@[5] == 'V' && "MultiVersionIssueCustomField"@[0] == 'M');
    assert("MultiBuildIssueCustomField"@[5] == 'B' && "MultiBuildIssueCustomField"@[0] == 'M');
    assert("MultiGroupIssueCustomField"@[5] == 'G' && "MultiGroupIssueCustomField"@[0] == 'M');
    assert("MultiUserIssueCustomField"@[5] == 'U');
}

/// The value of a field is told by its name, its login, its text or its presentation, as
/// its type has it; where there can be several values it is a list of one.
pub proof fn law_values_follow_the_type(val: Seq<char>, number: Option<JsonView>)
    ensures
        fields::field_value("SingleEnumIssueCustomField"@, val, number) == Some(
            object_of("name"@, val),
        ),
        fields::field_value("MultiEnumIssueCustomField"@, val, number) == Some(
            list_of(object_of("name"@, val)),
        ),
        fields::field_value("SingleOwnedIssueCustomField"@, val, number) == Some(
            object_of("name"@, val),
        ),
        fields::field_value("MultiOwnedIssueCustomField"@, val, number) == Some(
            list_of(object_of("name"@, val)),
        ),
        fields::field_value("SingleVersionIssueCustomField"@, val, number) == Some(
            object_of("name"@, val),
        ),
        fields::field_value("MultiVersionIssueCustomField"@, val, number) == Some(
            list_of(object_of("name"@, val)),
        ),
        fields::field_value("SingleBuildIssueCustomField"@, val, number) == Some(
            object_of("name"@, val),
        ),
        fields::field_value("MultiBuildIssueCustomField"@, val, number) == Some(
            list_of(object_of("name"@, val)),
        ),
        fields::field_value("SingleGroupIssueCustomField"@, val, number) == Some(
            object_of("name"@, val),
        ),
        fields::field_value("MultiGroupIssueCustomField"@, val, number) == Some(
            list_of(object_of("name"@, val)),
        ),
        fields::field_value("StateIssueCustomField"@, val, number) == Some(object_of("name"@, val)),
        fields::field_value("StateMachineIssueCustomField"@, val, number) == Some(
            object_of("name"@, val),
        ),
        fields::field_value("SingleUserIssueCustomField"@, val, number) == Some(
            object_of("login"@, val),
        ),
        fields::field_value("MultiUserIssueCustomField"@, val, number) == Some(
            list_of(object_of("login"@, val)),
        ),
        fields::field_value("TextIssueCustomField"@, val, number) == Some(object_of("text"@, val)),
        fields::field_value("PeriodIssueCustomField"@, val, number) == Some(
            object_of("presentation"@, val),
        ),
{
    lemma_multi();
    lemma_other_types();
    lemma_named("SingleEnumIssueCustomField"@);
    lemma_named("MultiEnumIssueCustomField"@);
    lemma_named("SingleOwnedIssueCustomField"@);
    lemma_named("MultiOwnedIssueCustomField"@);
    lemma_named("SingleVersionIssueCustomField"@);
    lemma_named("MultiVersionIssueCustomField"@);
    lemma_named("SingleBuildIssueCustomField"@);
    lemma_named("MultiBuildIssueCustomField"@);
    lemma_named("SingleGroupIssueCustomField"@);
    lemma_named("MultiGroupIssueCustomField"@);
    assert(fields::single("name"@, val) == object_of("name"@, val));
    assert(fields::single("login"@, val) == object_of("login"@, val));
    assert(fields::single("text"@, val) == object_of("text"@, val));
    assert(fields::single("presentation"@, val) == object_of("presentation"@, val));
}

/// A plain field takes a whole number where the text is one, else another number where it
/// is one, else the text.
pub proof fn law_plain_values_are_numbers_where_they_can_be(
    val: Seq<char>,
    number: Option<JsonView>,
)
    ensures
        fields::field_value("SimpleIssueCustomField"@, val, number) == Some(
            match number::parsed_i64(val) {
                Some(i) => JsonView::Integer(i as int),
                None => match number {
                    Some(n) => n,
                    None => JsonView::Text(val),
                },
            },
        ),
{
    lemma_other_types();
}

/// Every whole number that is written out is taken as that number.
pub proof fn law_whole_numbers_are_taken(i: i64, number: Option<JsonView>)
    ensures
        fields::field_value("SimpleIssueCustomField"@, number::signed(i as int), number) == Some(
            JsonView::Integer(i as int),
        ),
{
    law_plain_values_are_numbers_where_they_can_be(number::signed(i as int), number);
    number::law_signed_reads_back(i);
}

/// A field of a type of no other name takes no value that a text can tell.
pub proof fn law_other_types_take_nothing(
    cf_type: Seq<char>,
    val: Seq<char>,
    number: Option<JsonView>,
)
    requires
        cf_type != "SingleEnumIssueCustomField"@,
        cf_type != "MultiEnumIssueCustomField"@,
        cf_type != "SingleOwnedIssueCustomField"@,
        cf_type != "MultiOwnedIssueCustomField"@,
        cf_type != "SingleVersionIssueCustomField"@,
        cf_type != "MultiVersionIssueCustomField"@,
        cf_type != "SingleBuildIssueCustomField"@,
        cf_type != "MultiBuildIssueCustomField"@,
        cf_type != "SingleGroupIssueCustomField"@,
        cf_type != "MultiGroupIssueCustomField"@,
        cf_type != "StateIssueCustomField"@,
        cf_type != "StateMachineIssueCustomField"@,
        cf_type != "SingleUserIssueCustomField"@,
        cf_type != "MultiUserIssueCustomField"@,
        cf_type != "TextIssueCustomField"@,
        cf_type != "PeriodIssueCustomField"@,
        cf_type != "SimpleIssueCustomField"@,
    ensures
        fields::field_value(cf_type, val, number) is None,
{
    lemma_named(cf_type);
}

/// The entry of a field holds its name, its type and the value that its type takes for the
/// text, white space around it aside; there is none for a blank text or where the type
/// takes none.
pub proof fn law_entries_hold_name_type_and_value(
    name: Seq<char>,
    cf_type: Seq<char>,
    raw: Seq<char>,
    number: Option<JsonView>,
)
    ensures
        ({
            let val = text::trimmed(raw);
            let v = fields::field_value(cf_type, val, number);
            match fields::field_entry(name, cf_type, raw, number) {
                Some(e) => val.len() > 0 && v is Some && e == JsonView::Object(
                    map![
                        "name"@ => JsonView::Text(name),
                        "$type"@ => JsonView::Text(cf_type),
                        "value"@ => v->Some_0,
                    ],
                ),
                None => val.len() == 0 || v is None,
            }
        }),
{
}

/// What an id of a field type is made of.
proof fn lemma_parts(base: Seq<char>)
    requires
        base.len() > 0,
        base.last() != ']',
    ensures
        fields::type_parts(base) == (base, false),
        fields::type_parts(base + "[1]"@) == (base, false),
        fields::type_parts(base + "[*]"@) == (base, true),
{
    reveal_strlit("[1]");
    reveal_strlit("[*]");
    let one = base + "[1]"@;
    let many = base + "[*]"@;
    assert("[1]"@[2] == ']' && "[*]"@[2] == ']');
    assert("[1]"@[1] == '1' && "[*]"@[1] == '*');
    if base.len() >= 3 {
        let end = base.skip(base.len() - 3);
        assert(end[2] == base.last());
    }
    assert(one.skip(one.len() - 3) =~= "[1]"@);
    assert(many.skip(many.len() - 3) =~= "[*]"@);
    assert(one.take(one.len() - 3) =~= base);
    assert(many.take(many.len() - 3) =~= base);
    if "[*]"@.is_suffix_of(one) {
        assert("[*]"@[1] == one.skip(one.len() - 3)[1]);
    }
}

/// Whether the id `base`, alone or marked for one value, is that of the type `one`, and
/// marked for several that of the type `several`.
pub open spec fn names_types(base: Seq<char>, one: Seq<char>, several: Seq<char>) -> bool {
    &&& fields::type_of_id(base) == Some(one)
    &&& fields::type_of_id(base + "[1]"@) == Some(one)
    &&& fields::type_of_id(base + "[*]"@) == Some(several)
}

/// How the ids of field types begin and end.
proof fn lemma_ids()
    ensures
        "enum"@.len() > 1 && "enum"@[0] == 'e' && "enum"@.last() == 'm',
        "state"@.len() > 1 && "state"@[0] == 's' && "state"@.last() == 'e',
        "user"@.len() > 1 && "user"@[0] == 'u' && "user"@.last() == 'r',
        "ownedField"@.len() > 1 && "ownedField"@[0] == 'o' && "ownedField"@.last() == 'd',
        "version"@.len() > 1 && "version"@[0] == 'v' && "version"@.last() == 'n',
        "build"@.len() > 1 && "build"@[0] == 'b' && "build"@.last() == 'd',
        "group"@.len() > 1 && "group"@[0] == 'g' && "group"@.last() == 'p',
        "text"@.len() > 1 && "text"@[0] == 't' && "text"@.last() == 't',
        "period"@.len() > 1 && "period"@[0] == 'p' && "period"@.last() == 'd',
        "integer"@.len() > 1 && "integer"@[0] == 'i' && "integer"@.last() == 'r',
        "float"@.len() > 1 && "float"@[0] == 'f' && "float"@.last() == 't',
        "string"@.len() > 1 && "string"@[0] == 's' && "string"@.last() == 'g',
{
    reveal_strlit("enum");
    reveal_strlit("state");
    reveal_strlit("user");
    reveal_strlit("ownedField");
    reveal_strlit("version");
    reveal_strlit("build");
    reveal_strlit("group");
    reveal_strlit("text");
    reveal_strlit("period");
    reveal_strlit("integer");
    reveal_strlit("float");
    reveal_strlit("string");
}

/// What type a known id names.
proof fn lemma_type(base: Seq<char>)
    requires
        base.len() > 0,
        base.last() != ']',
    ensures
        base == "enum"@ ==> names_types(
            base,
            "SingleEnumIssueCustomField"@,
            "MultiEnumIssueCustomField"@,
        ),
        base == "user"@ ==> names_types(
            base,
            "SingleUserIssueCustomField"@,
            "MultiUserIssueCustomField"@,
        ),
        base == "ownedField"@ ==> names_types(
            base,
            "SingleOwnedIssueCustomField"@,
            "MultiOwnedIssueCustomField"@,
        ),
        base == "version"@ ==> names_types(
            base,
            "SingleVersionIssueCustomField"@,
            "MultiVersionIssueCustomField"@,
        ),
        base == "build"@ ==> names_types(
            base,
            "SingleBuildIssueCustomField"@,
            "MultiBuildIssueCustomField"@,
        ),
        base == "group"@ ==> names_types(
            base,
            "SingleGroupIssueCustomField"@,
            "MultiGroupIssueCustomField"@,
        ),
        base == "state"@ ==> names_types(
            base,
            "StateIssueCustomField"@,
            "StateIssueCustomField"@,
        ),
        base == "text"@ ==> names_types(
            base,
            "TextIssueCustomField"@,
            "TextIssueCustomField"@,
        ),
        base == "period"@ ==> names_types(
            base,
            "PeriodIssueCustomField"@,
            "PeriodIssueCustomField"@,
        ),
        base == "integer"@ ==> names_types(
            base,
            "SimpleIssueCustomField"@,
            "SimpleIssueCustomField"@,
        ),
        base == "float"@ ==> names_types(
            base,
            "SimpleIssueCustomField"@,
            "SimpleIssueCustomField"@,
        ),
        base == "string"@ ==> names_types(
            base,
            "SimpleIssueCustomField"@,
            "SimpleIssueCustomField"@,
        ),
{
    lemma_ids();
    lemma_parts(base);
}

/// The types of fields by the ids of their field types.
pub proof fn law_types_by_id()
    ensures
        names_types("enum"@, "SingleEnumIssueCustomField"@, "MultiEnumIssueCustomField"@),
        names_types("state"@, "StateIssueCustomField"@, "StateIssueCustomField"@),
        names_types("user"@, "SingleUserIssueCustomField"@, "MultiUserIssueCustomField"@),
        names_types("ownedField"@, "SingleOwnedIssueCustomField"@, "MultiOwnedIssueCustomField"@),
        names_types("version"@, "SingleVersionIssueCustomField"@, "MultiVersionIssueCustomField"@),
        names_types("build"@, "SingleBuildIssueCustomField"@, "MultiBuildIssueCustomField"@),
        names_types("group"@, "SingleGroupIssueCustomField"@, "MultiGroupIssueCustomField"@),
        names_types("text"@, "TextIssueCustomField"@, "TextIssueCustomField"@),
        names_types("period"@, "PeriodIssueCustomField"@, "PeriodIssueCustomField"@),
        names_types("integer"@, "SimpleIssueCustomField"@, "SimpleIssueCustomField"@),
        names_types("float"@, "SimpleIssueCustomField"@, "SimpleIssueCustomField"@),
        names_types("string"@, "SimpleIssueCustomField"@, "SimpleIssueCustomField"@),
{
    lemma_ids();
    lemma_type("enum"@);
    lemma_type("state"@);
    lemma_type("user"@);
    lemma_type("ownedField"@);
    lemma_type("version"@);
    lemma_type("build"@);
    lemma_type("group"@);
    lemma_type("text"@);
    lemma_type("period"@);
    lemma_type("integer"@);
    lemma_type("float"@);
    lemma_type("string"@);
}

/// The id of no other field type is known.
pub proof fn law_other_ids_are_unknown(base: Seq<char>)
    requires
        base.len() > 0,
        base.last() != ']',
        base != "enum"@,
        base != "state"@,
        base != "user"@,
        base != "ownedField"@,
        base != "version"@,
        base != "build"@,
        base != "group"@,
        base != "text"@,
        base != "period"@,
        base != "integer"@,
        base != "float"@,
        base != "string"@,
    ensures
        fields::type_of_id(base) is None,
        fields::type_of_id(base + "[1]"@) is None,
        fields::type_of_id(base + "[*]"@) is None,
{
    lemma_parts(base);
}

// ---- the words that name a field ----

/// Whether `given` is the name of a field, or starts with it and goes on with a space, in
/// whatever case.
pub open spec fn is_named(given: Seq<char>, name: Seq<char>) -> bool {
    let n = name.len() as int;
    &&& given.len() >= n
    &&& text::lowered(given.take(n)) == text::lowered(name)
    &&& given.len() == n || given[n] == ' '
}

proof fn lemma_is_named(given: Seq<char>, name: Seq<char>)
    ensures
        fields::names_field(given, name) == is_named(given, name),
{
    reveal_strlit(" ");
    let n = name.len() as int;
    let g = text::lowered(given);
    let l = text::lowered(name);
    assert(" "@ =~= seq![' ']);
    assert(g.len() == given.len());
    assert(l.len() == n);
    if given.len() >= n {
        let t = given.take(n);
        assert(text::lowered(t).len() == n);
        assert forall|i: int| 0 <= i < n implies #[trigger] text::lowered(t)[i] == g.take(n)[i] by {
            assert(t[i] == given[i]);
        }
        assert(text::lowered(t) =~= g.take(n));
    }
    if g == l {
        assert(given.len() == n);
        assert(given.take(n) =~= given);
    }
    if (l + " "@).is_prefix_of(g) {
        let p = g.take(n + 1);
        assert(p == l + " "@);
        assert(g.take(n) =~= p.take(n));
        assert(p.take(n) =~= l);
        assert(g[n] == p[n]);
        assert(p[n] == ' ');
        assert(text::lower_char(given[n]) == ' ');
        assert(given[n] == ' ');
    }
    if is_named(given, name) {
        if given.len() == n {
            assert(given.take(n) =~= given);
        } else {
            assert(g[n] == text::lower_char(given[n]));
            assert(g.take(n + 1) =~= l + " "@);
        }
    }
}

/// The words given set the field whose name they start with, the longest such name, and
/// the last of equally long ones; what stands behind the name is the value.
pub proof fn law_words_set_the_field_they_name(
    defs: Seq<(Seq<char>, Seq<char>)>,
    given: Seq<char>,
    i: int,
)
    requires
        0 <= i < defs.len(),
        is_named(given, defs[i].0),
        forall|j: int|
            0 <= j < defs.len() && is_named(given, (#[trigger] defs[j]).0) ==> defs[j].0.len()
                < defs[i].0.len() || defs[j].0.len() == defs[i].0.len() && j <= i,
    ensures
        ({
            let raw = given.skip(defs[i].0.len() as int);
            fields::asked_entry(defs, given) == fields::field_entry(
                defs[i].0,
                defs[i].1,
                raw,
                wire::as_number(text::trimmed(raw)),
            )
        }),
{
    lemma_picked(defs, given, i);
}

proof fn lemma_picked(defs: Seq<(Seq<char>, Seq<char>)>, given: Seq<char>, i: int)
    requires
        0 <= i < defs.len(),
        is_named(given, defs[i].0),
        forall|j: int|
            0 <= j < defs.len() && is_named(given, (#[trigger] defs[j]).0) ==> defs[j].0.len()
                < defs[i].0.len() || defs[j].0.len() == defs[i].0.len() && j <= i,
    ensures
        fields::field_named(defs, given) == Some(defs[i]),
    decreases defs.len(),
{
    let d = defs.drop_last();
    lemma_is_named(given, defs.last().0);
    assert(defs[defs.len() - 1] == defs.last());
    if i < d.len() {
        assert(d[i] == defs[i]);
        assert forall|j: int| 0 <= j < d.len() && is_named(given, (#[trigger] d[j]).0) implies d[j].0.len()
            < d[i].0.len() || d[j].0.len() == d[i].0.len() && j <= i by {
            assert(d[j] == defs[j]);
        }
        lemma_picked(d, given, i);
    } else {
        fields::law_longest_name_wins(d, given);
        if let Some(b) = fields::field_named(d, given) {
            let j = choose|j: int| 0 <= j < d.len() && d[j] == b;
            lemma_is_named(given, b.0);
            assert(defs[j] == b);
        }
    }
}

/// Words that start with the name of no field set none.
pub proof fn law_words_without_a_name_set_nothing(
    defs: Seq<(Seq<char>, Seq<char>)>,
    given: Seq<char>,
)
    requires
        forall|j: int| 0 <= j < defs.len() ==> !is_named(given, (#[trigger] defs[j]).0),
    ensures
        fields::asked_entry(defs, given) is None,
{
    fields::law_longest_name_wins(defs, given);
    if let Some(b) = fields::field_named(defs, given) {
        let j = choose|j: int| 0 <= j < defs.len() && defs[j] == b;
        lemma_is_named(given, b.0);
        assert(is_named(given, defs[j].0));
    }
}

// ---- the types of a project's fields ----

/// The name and the type that a field of a project has, where its type is known.
pub open spec fn told_type(f: JsonView) -> Option<(Seq<char>, Seq<char>)> {
    match (
        f.member("field"@).member("name"@),
        f.member("field"@).member("fieldType"@).member("id"@),
    ) {
        (JsonView::Text(n), JsonView::Text(id)) => match fields::type_of_id(id) {
            Some(t) => Some((n, t)),
            None => None,
        },
        _ => None,
    }
}

/// The names and the types that the fields of a project have, in order.
pub open spec fn told_types(s: Seq<JsonView>) -> Seq<(Seq<char>, Seq<char>)> {
    s.filter(|f: JsonView| told_type(f) is Some).map_values(|f: JsonView| told_type(f)->Some_0)
}

proof fn lemma_told_types(s: Seq<JsonView>)
    ensures
        fields::configured_fields(s) == told_types(s),
    decreases s.len(),
{
    reveal(Seq::filter);
    if s.len() > 0 {
        lemma_told_types(s.drop_last());
    }
    assert(fields::configured_fields(s) =~= told_types(s));
}

/// The types of a project's fields are those that it is configured with, where any is told;
/// else those seen on its issues; else none is known.
pub proof fn law_configured_types_come_first(config: JsonView, issues: Option<JsonView>)
    ensures
        told_types(config.items()).len() > 0 ==> fields::field_types(Some(config), issues)
            == told_types(config.items()),
        told_types(config.items()).len() == 0 ==> fields::field_types(Some(config), issues)
            == fields::field_types(None, issues),
        fields::field_types(None, None).len() == 0,
{
    lemma_told_types(config.items());
}

/// Whether a field has the name `name` and a type.
pub open spec fn has_type(f: JsonView, name: Seq<char>) -> bool {
    f.member("name"@) == JsonView::Text(name) && f.member("$type"@) is Text
}

/// Whether the first of the fields `s` that has the name `name` and a type has the type `t`.
pub open spec fn first_type(s: Seq<JsonView>, name: Seq<char>, t: Seq<char>) -> bool {
    exists|k: int|
        0 <= k < s.len() && has_type(#[trigger] s[k], name) && s[k].member("$type"@)
            == JsonView::Text(t) && forall|j: int| 0 <= j < k ==> !has_type(#[trigger] s[j], name)
}

proof fn lemma_first_type(s: Seq<JsonView>, name: Seq<char>, t: Seq<char>)
    ensures
        ({
            let m = fields::seen_fields(s);
            &&& m.contains_key(name) && m[name] == t <==> first_type(s, name, t)
            &&& m.contains_key(name) <==> exists|k: int|
                0 <= k < s.len() && has_type(#[trigger] s[k], name)
            &&& m.dom().finite()
        }),
    decreases s.len(),
{
    if s.len() > 0 {
        let d = s.drop_last();
        let f = s.last();
        lemma_first_type(d, name, t);
        let m = fields::seen_fields(d);
        assert(s[s.len() - 1] == f);
        assert(forall|k: int| 0 <= k < d.len() ==> #[trigger] d[k] == s[k]);
        if m.contains_key(name) {
            let k = choose|k: int| 0 <= k < d.len() && has_type(#[trigger] d[k], name);
            assert(has_type(s[k], name));
            assert(fields::seen_fields(s).contains_key(name));
            assert(fields::seen_fields(s)[name] == m[name]);
            if first_type(d, name, t) {
                let k = choose|k: int|
                    0 <= k < d.len() && has_type(#[trigger] d[k], name) && d[k].member("$type"@)
                        == JsonView::Text(t) && forall|j: int|
                        0 <= j < k ==> !has_type(#[trigger] d[j], name);
                assert(has_type(s[k], name));
                assert forall|j: int| 0 <= j < k implies !has_type(#[trigger] s[j], name) by {
                    assert(s[j] == d[j]);
                }
            }
            if first_type(s, name, t) {
                let n = choose|k: int|
                    0 <= k < s.len() && has_type(#[trigger] s[k], name) && s[k].member("$type"@)
                        == JsonView::Text(t) && forall|j: int|
                        0 <= j < k ==> !has_type(#[trigger] s[j], name);
                assert(n < d.len()) by {
                    if n == d.len() {
                        assert(has_type(s[k], name));
                    }
                }
                assert(has_type(d[n], name));
                assert forall|j: int| 0 <= j < n implies !has_type(#[trigger] d[j], name) by {
                    assert(s[j] == d[j]);
                }
            }
        } else {
            assert forall|j: int| 0 <= j < d.len() implies !has_type(#[trigger] s[j], name) by {
                assert(d[j] == s[j]);
            }
        }
    }
}

/// The types seen on issues are by name, in order and each once, and of each name the first
/// that is seen.
pub proof fn law_first_types_seen_count(issues: JsonView, name: Seq<char>, t: Seq<char>)
    ensures
        ({
            let e = fields::field_types(None, Some(issues));
            let all = fields::all_fields(issues.items());
            &&& sorted::ascending(e.map_values(|p: (Seq<char>, Seq<char>)| p.0))
            &&& e.contains((name, t)) <==> first_type(all, name, t)
        }),
{
    let all = fields::all_fields(issues.items());
    let m = fields::seen_fields(all);
    let e = fields::field_types(None, Some(issues));
    lemma_first_type(all, name, t);
    sorted::law_in_order_lists_all(m.dom());
    let names = sorted::in_order(m.dom());
    assert(e == names.map_values(|n: Seq<char>| (n, m[n])));
    assert(e.map_values(|p: (Seq<char>, Seq<char>)| p.0) =~= names);
    if e.contains((name, t)) {
        let k = choose|k: int| 0 <= k < e.len() && e[k] == (name, t);
        assert(names.contains(names[k]));
        assert(m.dom().contains(name));
    }
    if first_type(all, name, t) {
        assert(m.dom().contains(name));
        assert(names.contains(name));
        let k = choose|k: int| 0 <= k < names.len() && names[k] == name;
        assert(e[k] == (name, t));
    }
}

/// The fields of issues are told one issue behind the other.
pub proof fn law_fields_of_issues_follow(s: Seq<JsonView>, issue: JsonView)
    ensures
        fields::all_fields(Seq::empty()).len() == 0,
        fields::all_fields(s.push(issue)) == fields::all_fields(s) + issue.member(
            "customFields"@,
        ).items(),
{
    assert(s.push(issue).drop_last() =~= s);
}

} // verus!
