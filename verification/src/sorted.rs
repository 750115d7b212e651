//! Texts in order, and a map keyed by text that keeps its keys in order.

use vstd::prelude::*;
use crate::text;

verus! {

// ---- meaning ----

/// Whether `a` comes before `b`: at the first character in which they differ the
/// one of `a` is the smaller, or `a` is a proper start of `b`.
pub open spec fn before(a: Seq<char>, b: Seq<char>) -> bool
    decreases a.len(),
{
    if b.len() == 0 {
        false
    } else if a.len() == 0 {
        true
    } else if a[0] != b[0] {
        a[0] < b[0]
    } else {
        before(a.drop_first(), b.drop_first())
    }
}

/// Whether each of `s` comes before the next.
pub open spec fn ascending(s: Seq<Seq<char>>) -> bool {
    forall|i: int, j: int| 0 <= i < j < s.len() ==> before(#[trigger] s[i], #[trigger] s[j])
}

/// Whether `s` lists the texts of `names`, in order and each once.
pub open spec fn lists(s: Seq<Seq<char>>, names: Set<Seq<char>>) -> bool {
    ascending(s) && forall|k: Seq<char>| names.contains(k) <==> #[trigger] s.contains(k)
}

/// The texts of `names` in order.
pub open spec fn in_order(names: Set<Seq<char>>) -> Seq<Seq<char>> {
    choose|s: Seq<Seq<char>>| lists(s, names)
}

// ---- facts ----

/// No text comes before itself, of two different texts one comes first, and the
/// order is transitive.
pub proof fn law_before_is_an_order(a: Seq<char>, b: Seq<char>, c: Seq<char>)
    ensures
        !before(a, a),
        before(a, b) ==> !before(b, a),
        a == b || before(a, b) || before(b, a),
        before(a, b) && before(b, c) ==> before(a, c),
    decreases a.len(),
{
    if a.len() > 0 {
        let x = a.drop_first();
        let y = b.drop_first();
        let z = c.drop_first();
        law_before_is_an_order(x, y, z);
        if b.len() > 0 && a[0] == b[0] && x == y {
            assert(a =~= seq![a[0]] + x);
            assert(b =~= seq![b[0]] + y);
        }
    } else if b.len() == 0 {
        assert(a =~= b);
    }
}

/// Of two texts that differ that comes first whose character is smaller where they begin
/// to differ; a text comes before those that go on behind it.
pub proof fn law_first_difference_decides(
    common: Seq<char>,
    a: char,
    b: char,
    x: Seq<char>,
    y: Seq<char>,
)
    ensures
        a < b ==> before(common + seq![a] + x, common + seq![b] + y),
        before(common, common + seq![a] + x),
    decreases common.len(),
{
    let s = common + seq![a] + x;
    let t = common + seq![b] + y;
    if common.len() > 0 {
        let d = common.drop_first();
        law_first_difference_decides(d, a, b, x, y);
        assert(s.drop_first() =~= d + seq![a] + x);
        assert(t.drop_first() =~= d + seq![b] + y);
    } else {
        assert(s[0] == a && t[0] == b);
    }
}

/// There is one way to list texts in order.
pub proof fn law_one_listing(s: Seq<Seq<char>>, t: Seq<Seq<char>>)
    requires
        ascending(s),
        ascending(t),
        forall|k: Seq<char>| s.contains(k) <==> t.contains(k),
    ensures
        s == t,
    decreases s.len() + t.len(),
{
    if s.len() == 0 {
        if t.len() > 0 {
            assert(t.contains(t[0]));
        }
        assert(s =~= t);
    } else if t.len() == 0 {
        assert(s.contains(s[0]));
    } else {
        let a = s.last();
        let b = t.last();
        assert(s[s.len() - 1] == a && t[t.len() - 1] == b);
        assert(s.contains(a) && t.contains(b));
        let i = choose|i: int| 0 <= i < t.len() && t[i] == a;
        let j = choose|j: int| 0 <= j < s.len() && s[j] == b;
        if a != b {
            assert(before(t[i], t[t.len() - 1]));
            assert(before(s[j], s[s.len() - 1]));
            law_before_is_an_order(a, b, a);
        }
        assert forall|k: Seq<char>| s.drop_last().contains(k) <==> t.drop_last().contains(k) by {
            lemma_last_apart(s, k);
            lemma_last_apart(t, k);
        }
        law_one_listing(s.drop_last(), t.drop_last());
        assert(s =~= s.drop_last().push(a));
        assert(t =~= t.drop_last().push(b));
    }
}

/// What an ascending sequence holds apart from its last text.
proof fn lemma_last_apart(s: Seq<Seq<char>>, k: Seq<char>)
    requires
        ascending(s),
        s.len() > 0,
    ensures
        s.drop_last().contains(k) <==> s.contains(k) && k != s.last(),
{
    if s.drop_last().contains(k) {
        let i = choose|i: int| 0 <= i < s.drop_last().len() && s.drop_last()[i] == k;
        assert(s[i] == k);
        assert(before(s[i], s[s.len() - 1]));
        law_before_is_an_order(k, k, k);
    }
    if s.contains(k) && k != s.last() {
        let i = choose|i: int| 0 <= i < s.len() && s[i] == k;
        assert(s.drop_last()[i] == k);
    }
}

/// A listing in order is what `in_order` gives.
pub proof fn lemma_in_order(s: Seq<Seq<char>>, names: Set<Seq<char>>)
    requires
        lists(s, names),
    ensures
        in_order(names) == s,
{
    let t = in_order(names);
    assert(lists(t, names));
    assert forall|k: Seq<char>| s.contains(k) <==> t.contains(k) by {
        assert(names.contains(k) <==> s.contains(k));
        assert(names.contains(k) <==> t.contains(k));
    }
    law_one_listing(s, t);
}

/// `s` with `x` where it belongs.
spec fn placed(s: Seq<Seq<char>>, x: Seq<char>) -> Seq<Seq<char>>
    decreases s.len(),
{
    if s.len() == 0 || before(s.last(), x) {
        s.push(x)
    } else {
        placed(s.drop_last(), x).push(s.last())
    }
}

/// A text that is put where it belongs keeps the order.
proof fn lemma_placed(s: Seq<Seq<char>>, x: Seq<char>)
    requires
        ascending(s),
        !s.contains(x),
    ensures
        ascending(placed(s, x)),
        forall|k: Seq<char>| #[trigger] placed(s, x).contains(k) <==> s.contains(k) || k == x,
    decreases s.len(),
{
    let t = placed(s, x);
    if s.len() == 0 || before(s.last(), x) {
        assert forall|i: int, j: int| 0 <= i < j < t.len() implies before(
            #[trigger] t[i],
            #[trigger] t[j],
        ) by {
            if j == s.len() {
                if i < s.len() - 1 {
                    assert(before(s[i], s[s.len() - 1]));
                    law_before_is_an_order(s[i], s.last(), x);
                }
            } else {
                assert(before(s[i], s[j]));
            }
        }
        assert forall|k: Seq<char>| #[trigger] t.contains(k) <==> s.contains(k) || k == x by {
            if s.contains(k) {
                let n = choose|n: int| 0 <= n < s.len() && s[n] == k;
                assert(t[n] == k);
            }
            assert(t[s.len() as int] == x);
        }
    } else {
        let d = s.drop_last();
        let y = s.last();
        assert(s[s.len() - 1] == y);
        assert(ascending(d)) by {
            assert forall|i: int, j: int| 0 <= i < j < d.len() implies before(
                #[trigger] d[i],
                #[trigger] d[j],
            ) by {
                assert(before(s[i], s[j]));
            }
        }
        assert(!d.contains(x)) by {
            if d.contains(x) {
                let n = choose|n: int| 0 <= n < d.len() && d[n] == x;
                assert(s[n] == x);
            }
        }
        lemma_placed(d, x);
        law_before_is_an_order(y, x, y);
        assert(y != x);
        let p = placed(d, x);
        assert forall|i: int, j: int| 0 <= i < j < t.len() implies before(
            #[trigger] t[i],
            #[trigger] t[j],
        ) by {
            if j < p.len() {
                assert(before(p[i], p[j]));
            } else {
                assert(p.contains(p[i]));
                if p[i] != x {
                    let n = choose|n: int| 0 <= n < d.len() && d[n] == p[i];
                    assert(before(s[n], s[s.len() - 1]));
                }
            }
        }
        assert forall|k: Seq<char>| #[trigger] t.contains(k) <==> s.contains(k) || k == x by {
            if t.contains(k) {
                let n = choose|n: int| 0 <= n < t.len() && t[n] == k;
                if n < p.len() {
                    assert(p.contains(k));
                    if d.contains(k) {
                        let m = choose|m: int| 0 <= m < d.len() && d[m] == k;
                        assert(s[m] == k);
                    }
                }
            }
            if s.contains(k) {
                let m = choose|m: int| 0 <= m < s.len() && s[m] == k;
                if m < d.len() {
                    assert(d[m] == k);
                    assert(d.contains(k));
                    assert(p.contains(k));
                    let n = choose|n: int| 0 <= n < p.len() && p[n] == k;
                    assert(t[n] == k);
                } else {
                    assert(t[p.len() as int] == k);
                }
            }
            if k == x {
                assert(p.contains(k));
                let n = choose|n: int| 0 <= n < p.len() && p[n] == k;
                assert(t[n] == k);
            }
        }
    }
}

/// Texts in order are all of them, each once, each before the next.
pub proof fn law_in_order_lists_all(names: Set<Seq<char>>)
    requires
        names.finite(),
    ensures
        lists(in_order(names), names),
    decreases names.len(),
{
    if names.len() == 0 {
        let s = Seq::<Seq<char>>::empty();
        assert(names =~= Set::empty());
        assert(lists(s, names));
    } else {
        let x = names.choose();
        let rest = names.remove(x);
        law_in_order_lists_all(rest);
        let s = in_order(rest);
        assert(rest.contains(x) <==> s.contains(x));
        lemma_placed(s, x);
        let t = placed(s, x);
        assert forall|k: Seq<char>| names.contains(k) <==> #[trigger] t.contains(k) by {
            assert(rest.contains(k) <==> s.contains(k));
        }
        assert(lists(t, names));
    }
}

// ---- operations ----

/// Whether `a` comes before `b`.
pub fn comes_before(a: &str, b: &str) -> (r: bool)
    ensures
        r == before(a@, b@),
{
    let x = text::chars_of(a);
    let y = text::chars_of(b);
    let mut i: usize = 0;
    assert(x@.skip(0) =~= x@);
    assert(y@.skip(0) =~= y@);
    loop
        invariant
            i <= x@.len(),
            i <= y@.len(),
            before(a@, b@) == before(x@.skip(i as int), y@.skip(i as int)),
        decreases x@.len() - i,
    {
        if i == y.len() {
            return false;
        }
        if i == x.len() {
            return true;
        }
        if x[i] != y[i] {
            return x[i] < y[i];
        }
        assert(x@.skip(i as int).drop_first() =~= x@.skip(i + 1));
        assert(y@.skip(i as int).drop_first() =~= y@.skip(i + 1));
        i += 1;
    }
}

/// A map keyed by text. Its keys are kept in order and each occurs once.
pub struct TextMap<V> {
    entries: Vec<(String, V)>,
}

/// The keys of the entries `e`.
spec fn keys<V>(e: Seq<(String, V)>) -> Seq<Seq<char>> {
    e.map_values(|p: (String, V)| p.0@)
}

/// The map that the entries `e` make up.
spec fn contents<V>(e: Seq<(String, V)>) -> Map<Seq<char>, V>
    decreases e.len(),
{
    if e.len() == 0 {
        Map::empty()
    } else {
        contents(e.drop_last()).insert(e.last().0@, e.last().1)
    }
}

/// Entries in order make up a map of exactly them.
proof fn lemma_contents<V>(e: Seq<(String, V)>)
    requires
        ascending(keys(e)),
    ensures
        lists(keys(e), contents(e).dom()),
        forall|i: int| 0 <= i < e.len() ==> contents(e)[(#[trigger] e[i]).0@] == e[i].1,
        contents(e).dom().finite(),
        contents(e).dom().len() == e.len(),
    decreases e.len(),
{
    if e.len() == 0 {
        assert(keys(e) =~= Seq::empty());
    } else {
        let d = e.drop_last();
        let last = e.last().0@;
        assert(keys(d) =~= keys(e).drop_last());
        assert forall|i: int, j: int| 0 <= i < j < keys(d).len() implies before(
            #[trigger] keys(d)[i],
            #[trigger] keys(d)[j],
        ) by {
            assert(before(keys(e)[i], keys(e)[j]));
        }
        lemma_contents(d);
        lemma_last_apart(keys(e), last);
        assert(keys(e).last() == last);
        assert(!contents(d).contains_key(last)) by {
            assert(contents(d).dom().contains(last) <==> keys(d).contains(last));
        }
        assert forall|k: Seq<char>| contents(e).dom().contains(k) <==> #[trigger] keys(
            e,
        ).contains(k) by {
            lemma_last_apart(keys(e), k);
            assert(contents(d).dom().contains(k) <==> keys(d).contains(k));
            if k == last {
                assert(keys(e)[e.len() - 1] == k);
            }
        }
        assert forall|i: int| 0 <= i < e.len() implies contents(e)[(#[trigger] e[i]).0@]
            == e[i].1 by {
            if i < e.len() - 1 {
                assert(d[i] == e[i]);
                assert(before(keys(e)[i], keys(e)[e.len() - 1]));
                law_before_is_an_order(last, last, last);
            }
        }
    }
}

impl<V> View for TextMap<V> {
    type V = Map<Seq<char>, V>;

    closed spec fn view(&self) -> Map<Seq<char>, V> {
        contents(self.entries@)
    }
}

impl<V> TextMap<V> {
    #[verifier::type_invariant]
    spec fn sorted(self) -> bool {
        ascending(keys(self.entries@))
    }

    /// The empty map.
    pub fn new() -> (r: TextMap<V>)
        ensures
            r@ == Map::<Seq<char>, V>::empty(),
    {
        TextMap { entries: Vec::new() }
    }

    /// How many keys there are.
    pub fn len(&self) -> (r: usize)
        ensures
            r == self@.dom().len(),
            r == in_order(self@.dom()).len(),
            self@.dom().finite(),
            lists(in_order(self@.dom()), self@.dom()),
    {
        proof {
            use_type_invariant(self);
            lemma_contents(self.entries@);
            lemma_in_order(keys(self.entries@), self@.dom());
        }
        self.entries.len()
    }

    /// Whether there is no key.
    pub fn is_empty(&self) -> (r: bool)
        ensures
            r == (self@ == Map::<Seq<char>, V>::empty()),
    {
        proof {
            use_type_invariant(self);
            lemma_contents(self.entries@);
            if self.entries@.len() > 0 {
                assert(keys(self.entries@).contains(keys(self.entries@)[0]));
            }
        }
        self.entries.len() == 0
    }

    /// The key at position `i` in order.
    pub fn key_at(&self, i: usize) -> (r: &String)
        requires
            i < in_order(self@.dom()).len(),
        ensures
            r@ == in_order(self@.dom())[i as int],
            self@.contains_key(r@),
            lists(in_order(self@.dom()), self@.dom()),
    {
        proof {
            use_type_invariant(self);
            lemma_contents(self.entries@);
            lemma_in_order(keys(self.entries@), self@.dom());
            assert(keys(self.entries@).contains(keys(self.entries@)[i as int]));
        }
        &self.entries[i].0
    }

    /// The keys in order.
    pub fn keys(&self) -> (r: Vec<String>)
        ensures
            text::texts(r@) == in_order(self@.dom()),
            lists(in_order(self@.dom()), self@.dom()),
    {
        let n = self.len();
        let ghost order = in_order(self@.dom());
        let mut r: Vec<String> = Vec::new();
        let mut i: usize = 0;
        while i < n
            invariant
                i <= n,
                n == order.len(),
                order == in_order(self@.dom()),
                r@.len() == i,
                forall|k: int| 0 <= k < i ==> (#[trigger] r@[k])@ == order[k],
            decreases n - i,
        {
            r.push(self.key_at(i).clone());
            i += 1;
        }
        assert(text::texts(r@) =~= order);
        r
    }

    /// The value of the key at position `i` in order.
    pub fn value_at(&self, i: usize) -> (r: &V)
        requires
            i < in_order(self@.dom()).len(),
        ensures
            *r == self@[in_order(self@.dom())[i as int]],
    {
        proof {
            use_type_invariant(self);
            lemma_contents(self.entries@);
            lemma_in_order(keys(self.entries@), self@.dom());
        }
        &self.entries[i].1
    }

    /// Where the key `key` stands, or where it belongs.
    fn place(&self, key: &str) -> (r: (usize, bool))
        ensures
            r.0 <= self.entries@.len(),
            r.1 ==> r.0 < self.entries@.len() && self.entries@[r.0 as int].0@ == key@,
            !r.1 ==> !self@.contains_key(key@),
            forall|j: int| 0 <= j < r.0 ==> before(#[trigger] keys(self.entries@)[j], key@),
            !r.1 ==> forall|j: int|
                r.0 <= j < self.entries@.len() ==> before(key@, #[trigger] keys(self.entries@)[j]),
    {
        proof {
            use_type_invariant(self);
            lemma_contents(self.entries@);
        }
        let mut i: usize = 0;
        while i < self.entries.len() && comes_before(self.entries[i].0.as_str(), key)
            invariant
                i <= self.entries@.len(),
                forall|j: int| 0 <= j < i ==> before(#[trigger] keys(self.entries@)[j], key@),
            decreases self.entries@.len() - i,
        {
            assert(keys(self.entries@)[i as int] == self.entries@[i as int].0@);
            i += 1;
        }
        if i < self.entries.len() && text::same(self.entries[i].0.as_str(), key) {
            return (i, true);
        }
        proof {
            let k = keys(self.entries@);
            assert forall|j: int| i <= j < self.entries@.len() implies before(
                key@,
                #[trigger] k[j],
            ) by {
                assert(k[i as int] == self.entries@[i as int].0@);
                law_before_is_an_order(k[i as int], key@, key@);
                if j > i {
                    assert(before(k[i as int], k[j]));
                    law_before_is_an_order(key@, k[i as int], k[j]);
                }
            }
            if self@.contains_key(key@) {
                assert(self@.dom().contains(key@));
                assert(k.contains(key@));
                let j = choose|j: int| 0 <= j < k.len() && k[j] == key@;
                law_before_is_an_order(key@, key@, key@);
                assert(j < i || i <= j);
            }
        }
        (i, false)
    }

    /// The value of `key`.
    pub fn get(&self, key: &str) -> (r: Option<&V>)
        ensures
            match r {
                Some(v) => self@.contains_key(key@) && *v == self@[key@],
                None => !self@.contains_key(key@),
            },
    {
        let (i, found) = self.place(key);
        if found {
            proof {
                use_type_invariant(self);
                lemma_contents(self.entries@);
                assert(keys(self.entries@)[i as int] == key@);
                assert(keys(self.entries@).contains(key@));
                assert(self@.dom().contains(key@));
            }
            Some(&self.entries[i].1)
        } else {
            None
        }
    }

    /// Whether `key` is there.
    pub fn contains_key(&self, key: &str) -> (r: bool)
        ensures
            r == self@.contains_key(key@),
    {
        self.get(key).is_some()
    }

    /// Gives `key` the value `v`.
    pub fn insert(&mut self, key: String, v: V)
        ensures
            final(self)@ == old(self)@.insert(key@, v),
    {
        proof {
            use_type_invariant(&*self);
            lemma_contents(self.entries@);
        }
        let (i, found) = self.place(key.as_str());
        let mut entries: Vec<(String, V)> = Vec::new();
        std::mem::swap(&mut entries, &mut self.entries);
        let ghost e = entries@;
        let ghost name = key@;
        if found {
            entries.set(i, (key, v));
        } else {
            entries.insert(i, (key, v));
        }
        let ghost n = entries@;
        proof {
            if found {
                assert(keys(n) =~= keys(e));
            } else {
                assert(keys(n) =~= keys(e).insert(i as int, name));
            }
            assert(ascending(keys(n)));
            lemma_contents(n);
            let want = contents(e).insert(name, v);
            assert(keys(n)[i as int] == name);
            assert forall|k: Seq<char>| want.dom().contains(k) == #[trigger] contents(
                n,
            ).dom().contains(k) by {
                assert(contents(e).dom().contains(k) <==> keys(e).contains(k));
                assert(contents(n).dom().contains(k) <==> keys(n).contains(k));
                if keys(e).contains(k) {
                    let j = choose|j: int| 0 <= j < keys(e).len() && keys(e)[j] == k;
                    if found || j < i {
                        assert(keys(n)[j] == k);
                    } else {
                        assert(keys(n)[j + 1] == k);
                    }
                }
                if keys(n).contains(k) && k != name {
                    let j = choose|j: int| 0 <= j < keys(n).len() && keys(n)[j] == k;
                    if found || j < i {
                        assert(keys(e)[j] == k);
                    } else {
                        assert(keys(e)[j - 1] == k);
                    }
                }
            }
            assert forall|k: Seq<char>| #[trigger] contents(n).dom().contains(k) implies contents(
                n,
            )[k] == want[k] by {
                assert(keys(n).contains(k));
                let j = choose|j: int| 0 <= j < keys(n).len() && keys(n)[j] == k;
                assert(contents(n)[n[j].0@] == n[j].1);
                if k == name {
                    assert(contents(n)[n[i as int].0@] == n[i as int].1);
                } else if found || j < i {
                    assert(n[j] == e[j]);
                    assert(contents(e)[e[j].0@] == e[j].1);
                } else {
                    assert(n[j] == e[j - 1]);
                    assert(contents(e)[e[j - 1].0@] == e[j - 1].1);
                }
            }
            assert(contents(n) =~= want);
        }
        self.entries = entries;
    }
}

} // verus!
