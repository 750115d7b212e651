//! JSON text: read and written by `serde_json`. Its `Value` is a closed box to the
//! verifier, so it is opened and built here one level at a time, and everything
//! else in the library works on [`Json`].

use vstd::prelude::*;
use crate::json::{Json, JsonView};
use crate::json;
use crate::number;
use crate::text;

verus! {

/// `serde_json::Value`.
#[verifier::external_type_specification]
#[verifier::external_body]
pub struct ExValue(serde_json::Value);

/// What a `serde_json::Value` holds.
pub uninterp spec fn tree(v: serde_json::Value) -> JsonView;

/// What `serde_json::from_str` makes of a text: the value that it writes, or the
/// words of the complaint.
pub uninterp spec fn parsed(text: Seq<char>) -> Result<JsonView, Seq<char>>;

/// The text that a value's `to_string` writes: JSON on one line.
pub uninterp spec fn compact(v: JsonView) -> Seq<char>;

/// The text that `serde_json::to_string_pretty` writes: JSON, indented.
pub uninterp spec fn pretty(v: JsonView) -> Seq<char>;

/// What reading a text as a double-precision number gives: nothing where it is
/// none, an inner nothing where the number is not finite, else the JSON text of
/// the number.
pub uninterp spec fn double(text: Seq<char>) -> Option<Option<Seq<char>>>;

/// The JSON value of the number that a text writes in the way of a double-precision
/// number: null where it is too large for one. The words for what is infinite or no
/// number write none.
pub open spec fn as_number(text: Seq<char>) -> Option<JsonView> {
    match double(text) {
        Some(Some(t)) => Some(JsonView::Float(t)),
        Some(None) => if text::has_digit(text) {
            Some(JsonView::Null)
        } else {
            None
        },
        None => None,
    }
}

/// One level of a `serde_json::Value`.
pub enum Node {
    Null,
    Bool(bool),
    Integer(i128),
    Float(String),
    Text(String),
    Array(Vec<serde_json::Value>),
    Object(Vec<(String, serde_json::Value)>),
}

/// What the values `a` hold.
pub open spec fn trees(a: Seq<serde_json::Value>) -> Seq<JsonView> {
    a.map_values(|v: serde_json::Value| tree(v))
}

/// What the members `o` hold, a later one in place of an earlier one of the same
/// name.
pub open spec fn member_trees(o: Seq<(String, serde_json::Value)>) -> Map<Seq<char>, JsonView>
    decreases o.len(),
{
    if o.len() == 0 {
        Map::empty()
    } else {
        member_trees(o.drop_last()).insert(o.last().0@, tree(o.last().1))
    }
}

/// Whether no two of the members `o` have the same name.
pub open spec fn distinct(o: Seq<(String, serde_json::Value)>) -> bool {
    forall|i: int, j: int| 0 <= i < j < o.len() ==> (#[trigger] o[i]).0@ != (#[trigger] o[j]).0@
}

/// What a value with this top level holds.
pub open spec fn node_tree(n: Node) -> JsonView {
    match n {
        Node::Null => JsonView::Null,
        Node::Bool(b) => JsonView::Bool(b),
        Node::Integer(i) => JsonView::Integer(i as int),
        Node::Float(t) => JsonView::Float(t@),
        Node::Text(t) => JsonView::Text(t@),
        Node::Array(a) => JsonView::Array(trees(a@)),
        Node::Object(o) => JsonView::Object(member_trees(o@)),
    }
}

/// Whether a JSON number can be this whole number.
pub open spec fn is_json_integer(i: int) -> bool {
    i64::MIN <= i <= u64::MAX
}

/// Whether `t` is a double-precision number the way JSON text writes it.
pub open spec fn is_json_float(t: Seq<char>) -> bool {
    double(t) == Some(Some(t))
}

/// Whether every number in `v` is one that JSON text can hold.
pub open spec fn writable(v: JsonView) -> bool
    decreases v,
{
    match v {
        JsonView::Integer(i) => is_json_integer(i),
        JsonView::Float(t) => is_json_float(t),
        JsonView::Array(a) => forall|i: int| 0 <= i < a.len() ==> writable(#[trigger] a[i]),
        JsonView::Object(m) => forall|k: Seq<char>| #[trigger]
            m.contains_key(k) ==> writable(m[k]),
        _ => true,
    }
}

/// Whether `v` holds no fractional number and nests at most `depth` deep.
pub open spec fn storable(v: JsonView, depth: nat) -> bool
    decreases depth,
{
    match v {
        JsonView::Integer(i) => is_json_integer(i),
        JsonView::Float(t) => false,
        JsonView::Array(a) => depth > 0 && forall|i: int|
            0 <= i < a.len() ==> storable(#[trigger] a[i], (depth - 1) as nat),
        JsonView::Object(m) => depth > 0 && forall|k: Seq<char>| #[trigger]
            m.contains_key(k) ==> storable(m[k], (depth - 1) as nat),
        _ => true,
    }
}

/// Whether `text` reads as the value `v`.
pub open spec fn reads_as(text: Seq<char>, v: JsonView) -> bool {
    parsed(text) == Ok::<JsonView, Seq<char>>(v)
}

/// How JSON text writes one character of a text.
pub open spec fn escaped_char(c: char) -> Seq<char> {
    if c == '"' {
        seq!['\\', '"']
    } else if c == '\\' {
        seq!['\\', '\\']
    } else if c == '\u{8}' {
        seq!['\\', 'b']
    } else if c == '\u{c}' {
        seq!['\\', 'f']
    } else if c == '\n' {
        seq!['\\', 'n']
    } else if c == '\r' {
        seq!['\\', 'r']
    } else if c == '\t' {
        seq!['\\', 't']
    } else if c <= '\u{1f}' {
        seq![
            '\\',
            'u',
            '0',
            '0',
            number::hex_digit(c as nat / 16),
            number::hex_digit(c as nat % 16),
        ]
    } else {
        seq![c]
    }
}

/// How JSON text writes the characters `s` of a text.
pub open spec fn escaped(s: Seq<char>) -> Seq<char>
    decreases s.len(),
{
    if s.len() == 0 {
        Seq::empty()
    } else {
        escaped(s.drop_last()) + escaped_char(s.last())
    }
}

/// A text as JSON text writes it, between quotation marks.
pub open spec fn quoted(s: Seq<char>) -> Seq<char> {
    seq!['"'] + escaped(s) + seq!['"']
}

// ---- the calls ----

/// `serde_json::from_str`, read into a `Value`. Two calls on one text agree; what
/// the value is, or the words of the complaint, is named by `parsed`.
#[verifier::external_body]
fn read_value(text: &str) -> (r: Result<serde_json::Value, String>)
    ensures
        parsed(text@) == match r {
            Ok(v) => Ok(tree(v)),
            Err(e) => Err(e@),
        },
{
    serde_json::from_str(text).map_err(|e| e.to_string())
}

/// The variants of `serde_json::Value`, with what each of them holds. No two members
/// of an object have the same name. A number is taken by `Number::as_i128`, which
/// answers for every whole number, and where it does not answer by the text of
/// `Number::to_string`.
#[verifier::external_body]
fn open_value(v: serde_json::Value) -> (r: Node)
    ensures
        node_tree(r) == tree(v),
        r matches Node::Object(o) ==> distinct(o@),
{
    match v {
        serde_json::Value::Null => Node::Null,
        serde_json::Value::Bool(b) => Node::Bool(b),
        serde_json::Value::Number(n) => match n.as_i128() {
            Some(i) => Node::Integer(i),
            None => Node::Float(n.to_string()),
        },
        serde_json::Value::String(t) => Node::Text(t),
        serde_json::Value::Array(a) => Node::Array(a),
        serde_json::Value::Object(o) => Node::Object(o.into_iter().collect()),
    }
}

/// The variants of `serde_json::Value`, built. A whole number goes through
/// `Number::from_i128`, which takes those from `i64::MIN` to `u64::MAX`; another
/// number is read from its text and goes through `Number::from_f64`. Nothing is said
/// of a number that these do not take, nor of members of which two have the same name.
#[verifier::external_body]
fn close_value(n: Node) -> (r: serde_json::Value)
    ensures
        (n matches Node::Integer(i) ==> is_json_integer(i as int)) && (n matches Node::Float(t)
            ==> is_json_float(t@)) && (n matches Node::Object(o) ==> distinct(o@)) ==> tree(r)
            == node_tree(n),
{
    match n {
        Node::Null => serde_json::Value::Null,
        Node::Bool(b) => serde_json::Value::Bool(b),
        Node::Integer(i) => serde_json::Number::from_i128(i).map_or(
            serde_json::Value::Null,
            serde_json::Value::Number,
        ),
        Node::Float(t) => t.parse().ok().and_then(serde_json::Number::from_f64).map_or(
            serde_json::Value::Null,
            serde_json::Value::Number,
        ),
        Node::Text(t) => serde_json::Value::String(t),
        Node::Array(a) => serde_json::Value::Array(a),
        Node::Object(o) => serde_json::Value::Object(o.into_iter().collect()),
    }
}

/// `Value::to_string`: JSON on one line. The text depends on what the value holds
/// alone. A number is written as it is, a truth value by its word, a text between
/// quotation marks with its escapes; and a value without fractional numbers that
/// does not nest too deep for `serde_json::from_str` reads back as itself.
#[verifier::external_body]
fn write_compact(v: &serde_json::Value) -> (r: String)
    ensures
        r@ == compact(tree(*v)),
        tree(*v) matches JsonView::Bool(b) ==> r@ == (if b {
            "true"@
        } else {
            "false"@
        }),
        tree(*v) matches JsonView::Integer(i) ==> r@ == number::signed(i),
        tree(*v) matches JsonView::Float(t) ==> r@ == t,
        tree(*v) matches JsonView::Text(t) ==> r@ == quoted(t),
        storable(tree(*v), 100) ==> reads_as(r@, tree(*v)),
{
    v.to_string()
}

/// `serde_json::to_string_pretty`: JSON, indented. Writing a `Value` into memory
/// does not fail: its member names are texts. A value without fractional numbers
/// that does not nest too deep for `serde_json::from_str` reads back as itself.
#[verifier::external_body]
fn write_pretty(v: &serde_json::Value) -> (r: Result<String, String>)
    ensures
        r is Ok,
        r->Ok_0@ == pretty(tree(*v)),
        storable(tree(*v), 100) ==> reads_as(r->Ok_0@, tree(*v)),
{
    serde_json::to_string_pretty(v).map_err(|e| e.to_string())
}

/// A text read by `str::parse` as a double-precision number, and `Number::from_f64`
/// of that: nothing where the text is no number, an inner nothing where the number
/// is not finite, else the text of the JSON number, the shortest that is rounded to
/// that number and so reads back as itself. Two calls on one text agree.
#[verifier::external_body]
fn read_double(text: &str) -> (r: Option<Option<String>>)
    ensures
        double(text@) == match r {
            None => None,
            Some(None) => Some(None),
            Some(Some(t)) => Some(Some(t@)),
        },
        r matches Some(Some(t)) ==> double(t@) == Some(Some(t@)),
{
    text.parse().ok().map(|f| serde_json::Number::from_f64(f).map(|n| n.to_string()))
}

// ---- facts ----

/// A value that can be stored can be written.
pub proof fn lemma_storable_is_writable(v: JsonView, depth: nat)
    requires
        storable(v, depth),
    ensures
        writable(v),
    decreases depth,
{
    match v {
        JsonView::Array(a) => {
            assert forall|i: int| 0 <= i < a.len() implies writable(#[trigger] a[i]) by {
                lemma_storable_is_writable(a[i], (depth - 1) as nat);
            }
        },
        JsonView::Object(m) => {
            assert forall|k: Seq<char>| #[trigger] m.contains_key(k) implies writable(m[k]) by {
                lemma_storable_is_writable(m[k], (depth - 1) as nat);
            }
        },
        _ => {},
    }
}

/// A member of its own name is found under that name.
proof fn lemma_member_found(o: Seq<(String, serde_json::Value)>, i: int)
    requires
        distinct(o),
        0 <= i < o.len(),
    ensures
        member_trees(o).contains_key(o[i].0@),
        member_trees(o)[o[i].0@] == tree(o[i].1),
        member_trees(o).dom().finite(),
    decreases o.len(),
{
    if i < o.len() - 1 {
        lemma_member_found(o.drop_last(), i);
        assert(o[i].0@ != o[o.len() - 1].0@);
    } else if i > 0 {
        lemma_member_found(o.drop_last(), i - 1);
    } else {
        assert(o.drop_last().len() == 0);
    }
}

/// Members that agree one by one hold the same.
proof fn lemma_members_agree(a: Seq<(String, Json)>, b: Seq<(String, serde_json::Value)>)
    requires
        a.len() == b.len(),
        forall|i: int|
            0 <= i < a.len() ==> (#[trigger] a[i]).0@ == b[i].0@ && a[i].1@ == tree(b[i].1),
    ensures
        json::object_view(a) == member_trees(b),
    decreases a.len(),
{
    if a.len() > 0 {
        lemma_members_agree(a.drop_last(), b.drop_last());
        assert(a[a.len() - 1].0@ == b[b.len() - 1].0@);
    }
}

/// An object of storable members is storable.
pub proof fn lemma_storable_object(v: JsonView, depth: nat)
    requires
        v is Object,
        forall|k: Seq<char>| #[trigger]
            v->Object_0.contains_key(k) ==> storable(v->Object_0[k], depth),
    ensures
        storable(v, depth + 1),
{
}

/// An array of writable items is writable.
pub proof fn lemma_writable_array(v: JsonView)
    requires
        v is Array,
        forall|i: int| 0 <= i < v->Array_0.len() ==> writable(#[trigger] v->Array_0[i]),
    ensures
        writable(v),
{
}

/// An object of writable members is writable.
pub proof fn lemma_writable_object(v: JsonView)
    requires
        v is Object,
        forall|k: Seq<char>| #[trigger]
            v->Object_0.contains_key(k) ==> writable(v->Object_0[k]),
    ensures
        writable(v),
{
}

/// The items of a writable array are writable.
proof fn lemma_writable_item(v: JsonView, i: int)
    requires
        writable(v),
        v is Array,
        0 <= i < v->Array_0.len(),
    ensures
        writable(v->Array_0[i]),
{
}

/// The members of a writable object are writable.
pub proof fn lemma_writable_member(v: JsonView, k: Seq<char>)
    requires
        writable(v),
        v is Object,
        v->Object_0.contains_key(k),
    ensures
        writable(v->Object_0[k]),
{
}

/// Whether the member at position `i` is the last of its name.
spec fn is_last(o: Seq<(String, Json)>, i: int) -> bool {
    forall|k: int| i < k < o.len() ==> (#[trigger] o[k]).0@ != o[i].0@
}

/// The last member of a name is the one that counts.
proof fn lemma_last_counts(o: Seq<(String, Json)>, i: int)
    requires
        0 <= i < o.len(),
        is_last(o, i),
    ensures
        json::object_view(o).contains_key(o[i].0@),
        json::object_view(o)[o[i].0@] == o[i].1@,
    decreases o.len(),
{
    if i < o.len() - 1 {
        let d = o.drop_last();
        assert(o[o.len() - 1].0@ != o[i].0@);
        assert forall|k: int| i < k < d.len() implies (#[trigger] d[k]).0@ != d[i].0@ by {
            assert(o[k].0@ != o[i].0@);
        }
        lemma_last_counts(d, i);
    }
}

/// Every name of an object has a last member.
proof fn lemma_name_has_last(o: Seq<(String, Json)>, name: Seq<char>) -> (i: int)
    requires
        json::object_view(o).contains_key(name),
    ensures
        0 <= i < o.len(),
        o[i].0@ == name,
        is_last(o, i),
    decreases o.len(),
{
    if o.last().0@ == name {
        o.len() - 1
    } else {
        let d = o.drop_last();
        let i = lemma_name_has_last(d, name);
        assert forall|k: int| i < k < o.len() implies (#[trigger] o[k]).0@ != o[i].0@ by {
            if k < d.len() {
                assert(d[k].0@ != d[i].0@);
            }
        }
        i
    }
}

/// A name of an object is some member's name.
proof fn lemma_name_has_place(o: Seq<(String, serde_json::Value)>, name: Seq<char>) -> (i: int)
    requires
        member_trees(o).contains_key(name),
    ensures
        0 <= i < o.len(),
        o[i].0@ == name,
    decreases o.len(),
{
    if o.last().0@ == name {
        o.len() - 1
    } else {
        lemma_name_has_place(o.drop_last(), name)
    }
}

/// The last members of their names, taken from the positions `places`, hold what all
/// members hold, as far as it can be written.
proof fn lemma_last_members_suffice(
    v: JsonView,
    o: Seq<(String, Json)>,
    out: Seq<(String, serde_json::Value)>,
    places: Seq<int>,
)
    requires
        v == JsonView::Object(json::object_view(o)),
        writable(v),
        distinct(out),
        out.len() == places.len(),
        forall|k: int|
            0 <= k < out.len() ==> {
                &&& 0 <= #[trigger] places[k] < o.len()
                &&& is_last(o, places[k])
                &&& out[k].0@ == o[places[k]].0@
                &&& writable(o[places[k]].1@) ==> tree(out[k].1) == o[places[k]].1@
            },
        forall|i: int| 0 <= i < o.len() && #[trigger] is_last(o, i) ==> places.contains(i),
    ensures
        member_trees(out) == json::object_view(o),
{
    let want = json::object_view(o);
    let have = member_trees(out);
    assert forall|name: Seq<char>| #[trigger] have.contains_key(name) implies want.contains_key(
        name,
    ) && have[name] == want[name] by {
        let k = lemma_name_has_place(out, name);
        let i = places[k];
        lemma_member_found(out, k);
        lemma_last_counts(o, i);
        lemma_writable_member(v, name);
    }
    assert forall|name: Seq<char>| #[trigger] want.contains_key(name) implies have.contains_key(
        name,
    ) by {
        let i = lemma_name_has_last(o, name);
        let k = choose|k: int| 0 <= k < places.len() && places[k] == i;
        assert(places[k] == i);
        lemma_member_found(out, k);
    }
    assert(have =~= want);
}

// ---- operations ----

/// The library's own form of a `serde_json::Value`.
fn json_of(v: serde_json::Value) -> (r: Json)
    ensures
        r@ == tree(v),
    decreases tree(v),
{
    let ghost whole = tree(v);
    match open_value(v) {
        Node::Null => Json::Null,
        Node::Bool(b) => Json::Bool(b),
        Node::Integer(i) => Json::Integer(i),
        Node::Float(t) => Json::Float(t),
        Node::Text(t) => Json::Text(t),
        Node::Array(a) => {
            let ghost all = a@;
            let mut r: Vec<Json> = Vec::new();
            for x in it: a
                invariant
                    it.seq() == all,
                    whole == JsonView::Array(trees(all)),
                    whole == tree(v),
                    r@.len() == it.index(),
                    forall|i: int| 0 <= i < r@.len() ==> (#[trigger] r@[i])@ == tree(all[i]),
            {
                let ghost i = it.index() as int;
                assert(trees(all)[i] == tree(all[i]));
                assert(decreases_to!(whole => whole->Array_0));
                assert(decreases_to!(whole->Array_0 => whole->Array_0[i]));
                r.push(json_of(x));
            }
            assert(json::array_view(r@) =~= trees(all));
            Json::Array(r)
        },
        Node::Object(o) => {
            let ghost all = o@;
            let mut r: Vec<(String, Json)> = Vec::new();
            for x in it: o
                invariant
                    it.seq() == all,
                    whole == JsonView::Object(member_trees(all)),
                    whole == tree(v),
                    distinct(all),
                    r@.len() == it.index(),
                    forall|i: int|
                        0 <= i < r@.len() ==> (#[trigger] r@[i]).0@ == all[i].0@ && r@[i].1@
                            == tree(all[i].1),
            {
                proof {
                    let i = it.index() as int;
                    let key = all[i].0@;
                    lemma_member_found(all, i);
                    assert(decreases_to!(whole => whole->Object_0));
                    assert(decreases_to!(whole->Object_0 => whole->Object_0[key]));
                }
                let (k, w) = x;
                r.push((k, json_of(w)));
            }
            proof {
                lemma_members_agree(r@, all);
            }
            Json::Object(r)
        },
    }
}

/// Whether a member behind the one at position `i` has its name.
fn named_later(o: &[(String, Json)], i: usize) -> (r: bool)
    requires
        i < o@.len(),
    ensures
        r == !is_last(o@, i as int),
{
    let n: usize = o.len();
    let mut k: usize = i + 1;
    while k < n
        invariant
            n == o@.len(),
            i < k <= n,
            forall|s: int| i < s < k ==> (#[trigger] o@[s]).0@ != o@[i as int].0@,
        decreases o@.len() - k,
    {
        if text::same(o[k].0.as_str(), o[i].0.as_str()) {
            return true;
        }
        k += 1;
    }
    false
}

/// The `serde_json::Value` of a value.
fn value_of(j: &Json) -> (r: serde_json::Value)
    ensures
        writable(j@) ==> tree(r) == j@,
    decreases j,
{
    match j {
        Json::Null => close_value(Node::Null),
        Json::Bool(b) => close_value(Node::Bool(*b)),
        Json::Integer(i) => close_value(Node::Integer(*i)),
        Json::Float(t) => close_value(Node::Float(t.clone())),
        Json::Text(t) => close_value(Node::Text(t.clone())),
        Json::Array(a) => {
            let mut out: Vec<serde_json::Value> = Vec::new();
            let mut i: usize = 0;
            while i < a.len()
                invariant
                    i <= a@.len(),
                    j == Json::Array(*a),
                    out@.len() == i,
                    forall|k: int|
                        0 <= k < i ==> (writable(a@[k]@) ==> tree(#[trigger] out@[k]) == a@[k]@),
                decreases a@.len() - i,
            {
                assert(decreases_to!(j => j->Array_0));
                assert(decreases_to!(j->Array_0 => a@));
                assert(decreases_to!(a@ => a@[i as int]));
                out.push(value_of(&a[i]));
                i += 1;
            }
            proof {
                if writable(j@) {
                    assert(j@ == JsonView::Array(json::array_view(a@)));
                    assert forall|k: int| 0 <= k < a@.len() implies trees(out@)[k]
                        == json::array_view(a@)[k] by {
                        lemma_writable_item(j@, k);
                    }
                    assert(trees(out@) =~= json::array_view(a@));
                }
            }
            close_value(Node::Array(out))
        },
        Json::Object(o) => {
            let mut out: Vec<(String, serde_json::Value)> = Vec::new();
            let ghost mut places: Seq<int> = Seq::empty();
            let mut i: usize = 0;
            while i < o.len()
                invariant
                    i <= o@.len(),
                    j == Json::Object(*o),
                    distinct(out@),
                    out@.len() == places.len(),
                    forall|k: int|
                        0 <= k < out@.len() ==> {
                            &&& 0 <= #[trigger] places[k] < i
                            &&& is_last(o@, places[k])
                            &&& out@[k].0@ == o@[places[k]].0@
                            &&& writable(o@[places[k]].1@) ==> tree(out@[k].1)
                                == o@[places[k]].1@
                        },
                    forall|s: int| 0 <= s < i && #[trigger] is_last(o@, s) ==> places.contains(s),
                decreases o@.len() - i,
            {
                let member = &o[i];
                assert(decreases_to!(j => j->Object_0));
                assert(decreases_to!(j->Object_0 => o@));
                assert(decreases_to!(o@ => o@[i as int]));
                assert(decreases_to!(o@[i as int] => o@[i as int].1));
                if !named_later(o.as_slice(), i) {
                    let ghost before = out@;
                    let ghost earlier = places;
                    out.push((member.0.clone(), value_of(&member.1)));
                    proof {
                        places = places.push(i as int);
                        assert forall|k: int| 0 <= k < before.len() implies (#[trigger] out@[k]).0@
                            != out@[before.len() as int].0@ by {
                            assert(is_last(o@, places[k]));
                        }
                        assert forall|s: int|
                            0 <= s <= i && #[trigger] is_last(o@, s) implies places.contains(
                            s,
                        ) by {
                            if s < i {
                                let k = choose|k: int| 0 <= k < earlier.len() && earlier[k] == s;
                                assert(places[k] == s);
                            } else {
                                assert(places[earlier.len() as int] == s);
                            }
                        }
                    }
                }
                i += 1;
            }
            proof {
                if writable(j@) {
                    lemma_last_members_suffice(j@, o@, out@, places);
                }
            }
            close_value(Node::Object(out))
        },
    }
}

/// The value that a JSON text writes, or the words of the complaint.
pub fn parse(text: &str) -> (r: Result<Json, String>)
    ensures
        parsed(text@) == match r {
            Ok(v) => Ok(v@),
            Err(e) => Err(e@),
        },
{
    match read_value(text) {
        Ok(v) => Ok(json_of(v)),
        Err(e) => Err(e),
    }
}

/// The value as JSON text on one line.
pub fn to_text(j: &Json) -> (r: String)
    ensures
        writable(j@) ==> r@ == compact(j@),
        j@ matches JsonView::Bool(b) ==> r@ == (if b {
            "true"@
        } else {
            "false"@
        }),
        j@ matches JsonView::Integer(i) ==> is_json_integer(i) ==> r@ == number::signed(i),
        j@ matches JsonView::Float(t) ==> is_json_float(t) ==> r@ == t,
        j@ matches JsonView::Text(t) ==> r@ == quoted(t),
        storable(j@, 100) ==> reads_as(r@, j@),
{
    proof {
        if storable(j@, 100) {
            lemma_storable_is_writable(j@, 100);
        }
    }
    write_compact(&value_of(j))
}

/// The value as indented JSON text.
pub fn to_pretty_text(j: &Json) -> (r: Result<String, String>)
    ensures
        r is Ok,
        writable(j@) ==> r->Ok_0@ == pretty(j@),
        storable(j@, 100) ==> reads_as(r->Ok_0@, j@),
{
    proof {
        if storable(j@, 100) {
            lemma_storable_is_writable(j@, 100);
        }
    }
    write_pretty(&value_of(j))
}

/// The JSON value of the number that a text writes in the way of a double-precision
/// number.
pub fn parse_double(text: &str) -> (r: Option<Json>)
    ensures
        json::opt_json(r) == as_number(text@),
        r matches Some(v) ==> writable(v@),
{
    match read_double(text) {
        Some(Some(t)) => Some(Json::Float(t)),
        Some(None) => if text::any_digit(text) {
            Some(Json::Null)
        } else {
            None
        },
        None => None,
    }
}

} // verus!
