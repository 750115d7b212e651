//! JSON values: the library's own tree, its mathematical model, and the readers
//! that the rest of the library looks at server replies with.

use vstd::prelude::*;
use crate::text;

verus! {

/// A JSON value. A whole number is held exactly; any other number is held as the
/// text it is written with. An object lists its members; where a name occurs
/// twice, the later member counts.
#[derive(Debug, PartialEq, Eq)]
pub enum Json {
    Null,
    Bool(bool),
    Integer(i128),
    Float(String),
    Text(String),
    Array(Vec<Json>),
    Object(Vec<(String, Json)>),
}

/// The mathematical model of a JSON value.
pub enum JsonView {
    Null,
    Bool(bool),
    Integer(int),
    Float(Seq<char>),
    Text(Seq<char>),
    Array(Seq<JsonView>),
    Object(Map<Seq<char>, JsonView>),
}

/// The model of `j`.
pub open spec fn json_view(j: Json) -> JsonView
    decreases j,
{
    match j {
        Json::Null => JsonView::Null,
        Json::Bool(b) => JsonView::Bool(b),
        Json::Integer(i) => JsonView::Integer(i as int),
        Json::Float(t) => JsonView::Float(t@),
        Json::Text(t) => JsonView::Text(t@),
        Json::Array(a) => JsonView::Array(array_view(a@)),
        Json::Object(o) => JsonView::Object(object_view(o@)),
    }
}

/// The model of the items `a`.
pub open spec fn array_view(a: Seq<Json>) -> Seq<JsonView>
    decreases a,
{
    Seq::new(
        a.len(),
        |i: int|
            if 0 <= i < a.len() {
                json_view(a[i])
            } else {
                JsonView::Null
            },
    )
}

/// The model of the members `o`: a later member takes the place of an earlier
/// one of the same name.
pub open spec fn object_view(o: Seq<(String, Json)>) -> Map<Seq<char>, JsonView>
    decreases o,
{
    if o.len() == 0 {
        Map::empty()
    } else {
        object_view(o.drop_last()).insert(o.last().0@, json_view(o.last().1))
    }
}

/// The model of a value that may be missing.
pub open spec fn opt_json(j: Option<Json>) -> Option<JsonView> {
    match j {
        Some(v) => Some(json_view(v)),
        None => None,
    }
}

/// The model of a borrowed value that may be missing.
pub open spec fn opt_ref(j: Option<&Json>) -> Option<JsonView> {
    match j {
        Some(v) => Some(json_view(*v)),
        None => None,
    }
}

/// The first of the values `s` that satisfies `p`.
pub open spec fn first_where(s: Seq<JsonView>, p: spec_fn(JsonView) -> bool) -> Option<JsonView>
    decreases s.len(),
{
    if s.len() == 0 {
        None
    } else if p(s[0]) {
        Some(s[0])
    } else {
        first_where(s.drop_first(), p)
    }
}

/// What is found first is one of the values and satisfies `p`, and none before it
/// does; where nothing is found, none does.
pub proof fn law_first_is_first(s: Seq<JsonView>, p: spec_fn(JsonView) -> bool)
    ensures
        match first_where(s, p) {
            Some(v) => exists|i: int|
                {
                    &&& 0 <= i < s.len()
                    &&& #[trigger] s[i] == v
                    &&& p(v)
                    &&& forall|k: int| 0 <= k < i ==> !p(#[trigger] s[k])
                },
            None => forall|i: int| 0 <= i < s.len() ==> !p(#[trigger] s[i]),
        },
    decreases s.len(),
{
    if s.len() > 0 && !p(s[0]) {
        let t = s.drop_first();
        law_first_is_first(t, p);
        match first_where(t, p) {
            Some(v) => {
                let i = choose|i: int|
                    {
                        &&& 0 <= i < t.len()
                        &&& #[trigger] t[i] == v
                        &&& p(v)
                        &&& forall|k: int| 0 <= k < i ==> !p(#[trigger] t[k])
                    };
                assert(s[i + 1] == v);
                assert forall|k: int| 0 <= k < i + 1 implies !p(#[trigger] s[k]) by {
                    if k > 0 {
                        assert(s[k] == t[k - 1]);
                    }
                }
            },
            None => {
                assert forall|i: int| 0 <= i < s.len() implies !p(#[trigger] s[i]) by {
                    if i > 0 {
                        assert(s[i] == t[i - 1]);
                    }
                }
            },
        }
    }
}

/// A member's name is a name of the object.
pub proof fn lemma_member_listed(o: Seq<(String, Json)>, i: int)
    requires
        0 <= i < o.len(),
    ensures
        object_view(o).contains_key(o[i].0@),
    decreases o.len(),
{
    if i < o.len() - 1 {
        lemma_member_listed(o.drop_last(), i);
    }
}

/// A name of the object is some member's name.
pub proof fn lemma_member_has_place(o: Seq<(String, Json)>, k: Seq<char>)
    requires
        object_view(o).contains_key(k),
    ensures
        exists|i: int| 0 <= i < o.len() && (#[trigger] o[i]).0@ == k,
    decreases o.len(),
{
    if o.last().0@ == k {
        assert(o[o.len() - 1].0@ == k);
    } else {
        lemma_member_has_place(o.drop_last(), k);
        let i = choose|i: int|
            0 <= i < o.drop_last().len() && (#[trigger] o.drop_last()[i]).0@ == k;
        assert(o[i].0@ == k);
    }
}

impl View for Json {
    type V = JsonView;

    open spec fn view(&self) -> JsonView {
        json_view(*self)
    }
}

impl JsonView {
    /// The member `key` of an object; null where there is none.
    pub open spec fn member(self, key: Seq<char>) -> JsonView {
        match self {
            JsonView::Object(m) => if m.contains_key(key) {
                m[key]
            } else {
                JsonView::Null
            },
            _ => JsonView::Null,
        }
    }

    /// The text that a text value holds.
    pub open spec fn text(self) -> Option<Seq<char>> {
        match self {
            JsonView::Text(t) => Some(t),
            _ => None,
        }
    }

    /// The text of the member `key`; `other` where there is none.
    pub open spec fn text_or(self, key: Seq<char>, other: Seq<char>) -> Seq<char> {
        text::or_text(self.member(key).text(), other)
    }

    /// The truth value that a boolean holds.
    pub open spec fn truth(self) -> Option<bool> {
        match self {
            JsonView::Bool(b) => Some(b),
            _ => None,
        }
    }

    /// The whole number that a number holds, where it lies in the range of `i64`.
    pub open spec fn whole(self) -> Option<i64> {
        match self {
            JsonView::Integer(i) => if i64::MIN <= i <= i64::MAX {
                Some(i as i64)
            } else {
                None
            },
            _ => None,
        }
    }

    /// The whole number that a number holds, where it lies in the range of `u64`.
    pub open spec fn natural(self) -> Option<u64> {
        match self {
            JsonView::Integer(i) => if 0 <= i <= u64::MAX {
                Some(i as u64)
            } else {
                None
            },
            _ => None,
        }
    }

    /// The items of an array; none of anything else.
    pub open spec fn items(self) -> Seq<JsonView> {
        match self {
            JsonView::Array(a) => a,
            _ => Seq::empty(),
        }
    }
}

impl Json {
    /// The member `key` of an object; null where there is none.
    pub fn member(&self, key: &str) -> (r: &Json)
        ensures
            r@ == self@.member(key@),
    {
        match self {
            Json::Object(o) => {
                let mut n: usize = o.len();
                assert(o@.take(n as int) =~= o@);
                while n > 0
                    invariant
                        n <= o@.len(),
                        self@ == JsonView::Object(object_view(o@)),
                        object_view(o@).contains_key(key@) == object_view(
                            o@.take(n as int),
                        ).contains_key(key@),
                        object_view(o@).contains_key(key@) ==> object_view(o@)[key@]
                            == object_view(o@.take(n as int))[key@],
                    decreases n,
                {
                    assert(o@.take(n as int).drop_last() =~= o@.take(n - 1));
                    n -= 1;
                    if text::same(o[n].0.as_str(), key) {
                        return &o[n].1;
                    }
                }
                &Json::Null
            },
            _ => &Json::Null,
        }
    }

    /// The text that a text value holds.
    pub fn as_str(&self) -> (r: Option<&str>)
        ensures
            text::opt_str(r) == self@.text(),
    {
        match self {
            Json::Text(t) => Some(t.as_str()),
            _ => None,
        }
    }

    /// The truth value that a boolean holds.
    pub fn as_bool(&self) -> (r: Option<bool>)
        ensures
            r == self@.truth(),
    {
        match self {
            Json::Bool(b) => Some(*b),
            _ => None,
        }
    }

    /// The whole number that a number holds, where it lies in the range of `i64`.
    pub fn as_i64(&self) -> (r: Option<i64>)
        ensures
            r == self@.whole(),
    {
        match self {
            Json::Integer(i) => if *i >= i64::MIN as i128 && *i <= i64::MAX as i128 {
                Some(*i as i64)
            } else {
                None
            },
            _ => None,
        }
    }

    /// The whole number that a number holds, where it lies in the range of `u64`.
    pub fn as_u64(&self) -> (r: Option<u64>)
        ensures
            r == self@.natural(),
    {
        match self {
            Json::Integer(i) => if *i >= 0 && *i <= u64::MAX as i128 {
                Some(*i as u64)
            } else {
                None
            },
            _ => None,
        }
    }

    /// The items of an array; none of anything else.
    pub fn items(&self) -> (r: &[Json])
        ensures
            array_view(r@) == self@.items(),
            r@.len() == self@.items().len(),
    {
        match self {
            Json::Array(a) => a.as_slice(),
            _ => {
                assert(array_view(Seq::<Json>::empty()) =~= Seq::<JsonView>::empty());
                &[]
            },
        }
    }

    /// The items of an array, taken out of it; none of anything else.
    pub fn into_items(self) -> (r: Vec<Json>)
        ensures
            array_view(r@) == self@.items(),
    {
        match self {
            Json::Array(a) => a,
            _ => {
                assert(array_view(Seq::<Json>::empty()) =~= Seq::<JsonView>::empty());
                Vec::new()
            },
        }
    }

    /// Another value like this one.
    pub fn copy(&self) -> (r: Json)
        ensures
            r@ == self@,
        decreases self,
    {
        match self {
            Json::Null => Json::Null,
            Json::Bool(b) => Json::Bool(*b),
            Json::Integer(i) => Json::Integer(*i),
            Json::Float(t) => Json::Float(t.clone()),
            Json::Text(t) => Json::Text(t.clone()),
            Json::Array(a) => {
                let mut c: Vec<Json> = Vec::new();
                let mut i: usize = 0;
                while i < a.len()
                    invariant
                        i <= a@.len(),
                        self == Json::Array(*a),
                        c@.len() == i,
                        forall|k: int| 0 <= k < i ==> (#[trigger] c@[k])@ == a@[k]@,
                    decreases a@.len() - i,
                {
                    assert(decreases_to!(self => self->Array_0));
                    assert(decreases_to!(self->Array_0 => a@));
                    assert(decreases_to!(a@ => a@[i as int]));
                    c.push(a[i].copy());
                    i += 1;
                }
                assert(array_view(c@) =~= array_view(a@));
                Json::Array(c)
            },
            Json::Object(o) => {
                let mut c: Vec<(String, Json)> = Vec::new();
                let mut i: usize = 0;
                assert(o@.take(0) =~= Seq::empty());
                while i < o.len()
                    invariant
                        i <= o@.len(),
                        self == Json::Object(*o),
                        object_view(c@) == object_view(o@.take(i as int)),
                    decreases o@.len() - i,
                {
                    assert(decreases_to!(self => self->Object_0));
                    assert(decreases_to!(self->Object_0 => o@));
                    assert(decreases_to!(o@ => o@[i as int]));
                    assert(decreases_to!(o@[i as int] => o@[i as int].1));
                    let ghost before = c@;
                    let v = o[i].1.copy();
                    c.push((o[i].0.clone(), v));
                    assert(c@.drop_last() =~= before);
                    assert(o@.take(i + 1).drop_last() =~= o@.take(i as int));
                    i += 1;
                }
                assert(o@.take(o@.len() as int) =~= o@);
                Json::Object(c)
            },
        }
    }

    /// The value of the text `t`.
    pub fn text(t: &str) -> (r: Json)
        ensures
            r@ == JsonView::Text(t@),
    {
        Json::Text(t.to_owned())
    }

    /// The object without members.
    pub fn object() -> (r: Json)
        ensures
            r@ == JsonView::Object(Map::empty()),
    {
        Json::Object(Vec::new())
    }

    /// The object with one more member, or another in its place; anything else as
    /// it is.
    pub fn with(self, key: &str, v: Json) -> (r: Json)
        ensures
            r@ == match self@ {
                JsonView::Object(m) => JsonView::Object(m.insert(key@, v@)),
                _ => self@,
            },
    {
        match self {
            Json::Object(o) => {
                let mut o = o;
                let ghost before = o@;
                o.push((key.to_owned(), v));
                assert(o@.drop_last() =~= before);
                Json::Object(o)
            },
            _ => self,
        }
    }

    /// The text of the member `key`; `other` where there is none.
    pub fn text_or<'a>(&'a self, key: &str, other: &'a str) -> (r: &'a str)
        ensures
            r@ == self@.text_or(key@, other@),
    {
        match self.member(key).as_str() {
            Some(t) => t,
            None => other,
        }
    }

    /// Whether an object has the member `key`.
    pub fn has(&self, key: &str) -> (r: bool)
        ensures
            r == (self@ matches JsonView::Object(m) && m.contains_key(key@)),
    {
        match self {
            Json::Object(o) => {
                let mut i: usize = 0;
                while i < o.len()
                    invariant
                        i <= o@.len(),
                        self@ == JsonView::Object(object_view(o@)),
                        forall|j: int| 0 <= j < i ==> (#[trigger] o@[j]).0@ != key@,
                    decreases o@.len() - i,
                {
                    if text::same(o[i].0.as_str(), key) {
                        proof {
                            lemma_member_listed(o@, i as int);
                        }
                        return true;
                    }
                    i += 1;
                }
                proof {
                    if object_view(o@).contains_key(key@) {
                        lemma_member_has_place(o@, key@);
                    }
                }
                false
            },
            _ => false,
        }
    }
}

/// The first of the values `items` that satisfies `g`.
pub(crate) fn find_where<'a, G: Fn(&Json) -> bool>(
    items: &'a [Json],
    g: G,
    Ghost(p): Ghost<spec_fn(JsonView) -> bool>,
) -> (r: Option<&'a Json>)
    requires
        forall|v: &Json| call_requires(g, (v,)),
        forall|v: &Json, b: bool| call_ensures(g, (v,), b) ==> b == p(v@),
    ensures
        opt_ref(r) == first_where(array_view(items@), p),
{
    let ghost all = array_view(items@);
    let mut i: usize = 0;
    assert(all.skip(0) =~= all);
    while i < items.len()
        invariant
            i <= items@.len(),
            all == array_view(items@),
            forall|v: &Json| call_requires(g, (v,)),
            forall|v: &Json, b: bool| call_ensures(g, (v,), b) ==> b == p(v@),
            first_where(all, p) == first_where(all.skip(i as int), p),
        decreases items@.len() - i,
    {
        let v = &items[i];
        assert(all.skip(i as int)[0] == v@);
        assert(all.skip(i as int).drop_first() =~= all.skip(i + 1));
        if g(v) {
            return Some(v);
        }
        i += 1;
    }
    None
}

} // verus!
