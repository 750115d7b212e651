//! Plain text: the character-level operations that the rest of the library is
//! written with, each with its meaning on sequences of characters.

use vstd::prelude::*;
use vstd::slice::slice_subrange;

verus! {

/// `String::push` appends one character at the end.
pub assume_specification[ String::push ](s: &mut String, c: char)
    ensures
        final(s)@ == old(s)@.push(c),
;

// ---- meaning ----

/// The lower-case form of an ASCII capital; any other character as it is.
pub open spec fn lower_char(c: char) -> char {
    if 'A' <= c && c <= 'Z' {
        ((c as u8) + 32) as u8 as char
    } else {
        c
    }
}

/// `s` with every ASCII capital in lower case.
pub open spec fn lowered(s: Seq<char>) -> Seq<char> {
    s.map_values(|c: char| lower_char(c))
}

/// Whether `a` and `b` differ at most in the case of ASCII letters.
pub open spec fn alike(a: Seq<char>, b: Seq<char>) -> bool {
    lowered(a) == lowered(b)
}

/// Whether `part` stands somewhere in `s`.
pub open spec fn occurs_in(part: Seq<char>, s: Seq<char>) -> bool {
    exists|i: int|
        0 <= i <= s.len() - part.len() && #[trigger] s.subrange(i, i + part.len()) == part
}

/// The characters with the Unicode property White_Space.
pub open spec fn is_white(c: char) -> bool {
    ||| '\u{9}' <= c && c <= '\u{d}'
    ||| c == ' '
    ||| c == '\u{85}'
    ||| c == '\u{a0}'
    ||| c == '\u{1680}'
    ||| '\u{2000}' <= c && c <= '\u{200a}'
    ||| c == '\u{2028}'
    ||| c == '\u{2029}'
    ||| c == '\u{202f}'
    ||| c == '\u{205f}'
    ||| c == '\u{3000}'
}

/// Whether `c` is one of the ten ASCII digits.
pub open spec fn is_digit(c: char) -> bool {
    '0' <= c && c <= '9'
}

/// Whether there is an ASCII digit in `s`.
pub open spec fn has_digit(s: Seq<char>) -> bool {
    exists|i: int| 0 <= i < s.len() && is_digit(#[trigger] s[i])
}

/// `s` without the run of characters in `p` at its end.
pub open spec fn without_end(s: Seq<char>, p: spec_fn(char) -> bool) -> Seq<char>
    decreases s.len(),
{
    if s.len() > 0 && p(s.last()) {
        without_end(s.drop_last(), p)
    } else {
        s
    }
}

/// `s` without the run of characters in `p` at its start.
pub open spec fn without_start(s: Seq<char>, p: spec_fn(char) -> bool) -> Seq<char>
    decreases s.len(),
{
    if s.len() > 0 && p(s[0]) {
        without_start(s.drop_first(), p)
    } else {
        s
    }
}

/// The predicate of being the character `c`.
pub open spec fn just(c: char) -> spec_fn(char) -> bool {
    |d: char| d == c
}

/// The predicate of being white space.
pub open spec fn white() -> spec_fn(char) -> bool {
    |d: char| is_white(d)
}

/// `s` without white space at its end.
pub open spec fn trimmed_end(s: Seq<char>) -> Seq<char> {
    without_end(s, white())
}

/// `s` without white space at either end.
pub open spec fn trimmed(s: Seq<char>) -> Seq<char> {
    without_start(trimmed_end(s), white())
}

/// How many characters stand before the first one in `p`; all of them where
/// there is none.
pub open spec fn run(s: Seq<char>, p: spec_fn(char) -> bool) -> nat
    decreases s.len(),
{
    if s.len() == 0 || p(s[0]) {
        0
    } else {
        1 + run(s.drop_first(), p)
    }
}

/// How many characters of `s` stand before the first occurrence of `part`; all of
/// them where it does not occur.
pub open spec fn seek(part: Seq<char>, s: Seq<char>) -> nat
    decreases s.len(),
{
    if s.len() == 0 || part.is_prefix_of(s) {
        0
    } else {
        1 + seek(part, s.drop_first())
    }
}

/// The pieces of `s` between the occurrences of `c`: one more than there are
/// occurrences.
pub open spec fn pieces(s: Seq<char>, c: char) -> Seq<Seq<char>>
    decreases s.len(),
{
    let n = run(s, just(c)) as int;
    if n >= s.len() {
        seq![s]
    } else {
        seq![s.take(n)] + pieces(s.skip(n + 1), c)
    }
}

/// One line as it is read: without the carriage return before its line feed.
pub open spec fn unreturned(s: Seq<char>) -> Seq<char> {
    if s.len() > 0 && s.last() == '\r' {
        s.drop_last()
    } else {
        s
    }
}

/// The lines of `s`: each ends with a line feed, which the last may lack.
pub open spec fn lines_of(s: Seq<char>) -> Seq<Seq<char>>
    decreases s.len(),
{
    let n = run(s, just('\n')) as int;
    if s.len() == 0 {
        Seq::empty()
    } else if n >= s.len() {
        seq![s]
    } else {
        seq![unreturned(s.take(n))] + lines_of(s.skip(n + 1))
    }
}

/// The texts `parts` one after another with `sep` between them.
pub open spec fn joined(parts: Seq<Seq<char>>, sep: Seq<char>) -> Seq<char>
    decreases parts.len(),
{
    if parts.len() == 0 {
        Seq::empty()
    } else if parts.len() == 1 {
        parts[0]
    } else {
        joined(parts.drop_last(), sep) + sep + parts.last()
    }
}

/// The texts that the strings `s` hold.
pub open spec fn texts(s: Seq<String>) -> Seq<Seq<char>> {
    s.map_values(|t: String| t@)
}

/// The texts of the pairs `s`.
pub open spec fn pairs(s: Seq<(String, String)>) -> Seq<(Seq<char>, Seq<char>)> {
    s.map_values(|p: (String, String)| (p.0@, p.1@))
}

/// The text that an optional string holds.
pub open spec fn opt_text(s: Option<String>) -> Option<Seq<char>> {
    match s {
        Some(t) => Some(t@),
        None => None,
    }
}

/// The text that an optional string slice holds.
pub open spec fn opt_str(s: Option<&str>) -> Option<Seq<char>> {
    match s {
        Some(t) => Some(t@),
        None => None,
    }
}

/// `t` where there is one, else `other`.
pub open spec fn or_text(t: Option<Seq<char>>, other: Seq<char>) -> Seq<char> {
    match t {
        Some(x) => x,
        None => other,
    }
}

// ---- facts ----

/// `run` stops at a character in `p`, and passes none before.
pub proof fn lemma_run(s: Seq<char>, p: spec_fn(char) -> bool)
    ensures
        run(s, p) <= s.len(),
        run(s, p) < s.len() ==> p(s[run(s, p) as int]),
        forall|i: int| 0 <= i < run(s, p) ==> !p(#[trigger] s[i]),
    decreases s.len(),
{
    if s.len() > 0 && !p(s[0]) {
        let t = s.drop_first();
        lemma_run(t, p);
        assert forall|i: int| 0 <= i < run(s, p) implies !p(#[trigger] s[i]) by {
            if i > 0 {
                assert(s[i] == t[i - 1]);
            }
        }
    }
}

/// A position that `p` holds at, with none before it, is where `run` stops.
pub proof fn lemma_run_is(s: Seq<char>, p: spec_fn(char) -> bool, n: int)
    requires
        0 <= n <= s.len(),
        n < s.len() ==> p(s[n]),
        forall|i: int| 0 <= i < n ==> !p(#[trigger] s[i]),
    ensures
        run(s, p) == n,
{
    lemma_run(s, p);
}

// ---- operations ----

/// The characters of `s`, in order.
pub fn chars_of(s: &str) -> (r: Vec<char>)
    ensures
        r@ == s@,
{
    let mut r: Vec<char> = Vec::new();
    for c in it: s.chars()
        invariant
            r@ == it.seq().take(it.index() as int),
            it.seq() == s@,
    {
        r.push(c);
        assert(it.seq().take(it.index() as int).push(c) =~= it.seq().take(it.index() + 1));
    }
    assert(s@.take(s@.len() as int) =~= s@);
    r
}

/// The text made of the characters `c`.
pub fn text_of(c: &[char]) -> (r: String)
    ensures
        r@ == c@,
{
    let mut r = String::new();
    let mut i: usize = 0;
    while i < c.len()
        invariant
            i <= c@.len(),
            r@ == c@.take(i as int),
        decreases c@.len() - i,
    {
        r.push(c[i]);
        i += 1;
        assert(c@.take(i as int) =~= c@.take(i - 1).push(c@[i - 1]));
    }
    assert(c@.take(c@.len() as int) =~= c@);
    r
}

/// Whether two runs of characters are the same.
fn same_chars(x: &[char], y: &[char]) -> (r: bool)
    ensures
        r == (x@ == y@),
{
    if x.len() != y.len() {
        return false;
    }
    let mut i: usize = 0;
    while i < x.len()
        invariant
            i <= x@.len(),
            x@.len() == y@.len(),
            forall|j: int| 0 <= j < i ==> x@[j] == y@[j],
        decreases x@.len() - i,
    {
        if x[i] != y[i] {
            return false;
        }
        i += 1;
    }
    assert(x@ =~= y@);
    true
}

/// Whether `a` and `b` are the same text.
pub fn same(a: &str, b: &str) -> (r: bool)
    ensures
        r == (a@ == b@),
{
    let x = chars_of(a);
    let y = chars_of(b);
    same_chars(x.as_slice(), y.as_slice())
}

/// The lower-case form of an ASCII capital; any other character as it is.
fn lower_of(c: char) -> (r: char)
    ensures
        r == lower_char(c),
{
    if 'A' <= c && c <= 'Z' {
        ((c as u8) + 32) as char
    } else {
        c
    }
}

/// `s` with every ASCII capital in lower case.
pub fn lower(s: &str) -> (r: String)
    ensures
        r@ == lowered(s@),
{
    let mut r = String::new();
    let c = chars_of(s);
    let mut i: usize = 0;
    while i < c.len()
        invariant
            i <= c@.len(),
            c@ == s@,
            r@ == lowered(s@).take(i as int),
        decreases c@.len() - i,
    {
        r.push(lower_of(c[i]));
        i += 1;
        assert(lowered(s@).take(i as int) =~= lowered(s@).take(i - 1).push(lower_char(s@[i - 1])));
    }
    assert(lowered(s@).take(s@.len() as int) =~= lowered(s@));
    r
}

/// Whether `a` and `b` differ at most in the case of ASCII letters.
pub fn same_ignoring_case(a: &str, b: &str) -> (r: bool)
    ensures
        r == alike(a@, b@),
{
    let x = lower(a);
    let y = lower(b);
    same(x.as_str(), y.as_str())
}

/// Whether `part` stands somewhere in `s`.
pub fn contains(s: &str, part: &str) -> (r: bool)
    ensures
        r == occurs_in(part@, s@),
{
    let x = chars_of(s);
    let y = chars_of(part);
    if x.len() < y.len() {
        return false;
    }
    let last: usize = x.len() - y.len();
    let mut i: usize = 0;
    loop
        invariant
            x@ == s@,
            y@ == part@,
            last + y.len() == x.len(),
            i <= last,
            forall|j: int| 0 <= j < i ==> #[trigger] s@.subrange(j, j + part@.len()) != part@,
        decreases last - i,
    {
        let w = slice_subrange(x.as_slice(), i, i + y.len());
        if same_chars(w, y.as_slice()) {
            assert(s@.subrange(i as int, i + part@.len()) == part@);
            return true;
        }
        if i == last {
            return false;
        }
        i += 1;
    }
}

/// How many characters of `s` stand before the first occurrence of `part`; all of
/// them where it does not occur.
pub fn find(s: &str, part: &str) -> (n: usize)
    ensures
        n == seek(part@, s@),
        n <= s@.len(),
        n < s@.len() ==> n + part@.len() <= s@.len(),
{
    let x = chars_of(s);
    let y = chars_of(part);
    let mut i: usize = 0;
    assert(x@.skip(0) =~= x@);
    while i < x.len()
        invariant
            i <= x@.len(),
            x@ == s@,
            y@ == part@,
            seek(part@, s@) == i + seek(part@, x@.skip(i as int)),
        decreases x@.len() - i,
    {
        let ghost rest = x@.skip(i as int);
        if y.len() <= x.len() - i {
            let w = slice_subrange(x.as_slice(), i, i + y.len());
            assert(w@ =~= rest.take(y@.len() as int));
            if same_chars(w, y.as_slice()) {
                assert(part@.is_prefix_of(rest));
                return i;
            }
        }
        assert(!part@.is_prefix_of(rest)) by {
            if part@.is_prefix_of(rest) {
                assert(rest.take(part@.len() as int) =~= part@);
            }
        }
        assert(rest.drop_first() =~= x@.skip(i + 1));
        i += 1;
    }
    i
}

/// Whether `s` starts with `head`.
pub fn starts_with(s: &str, head: &str) -> (r: bool)
    ensures
        r == head@.is_prefix_of(s@),
{
    let x = chars_of(s);
    let y = chars_of(head);
    if x.len() < y.len() {
        return false;
    }
    same_chars(slice_subrange(x.as_slice(), 0, y.len()), y.as_slice())
}

/// Whether `s` ends with `tail`.
pub fn ends_with(s: &str, tail: &str) -> (r: bool)
    ensures
        r == tail@.is_suffix_of(s@),
{
    let x = chars_of(s);
    let y = chars_of(tail);
    if x.len() < y.len() {
        return false;
    }
    same_chars(slice_subrange(x.as_slice(), x.len() - y.len(), x.len()), y.as_slice())
}

/// The first `n` characters of `s`.
pub fn take(s: &str, n: usize) -> (r: String)
    requires
        n <= s@.len(),
    ensures
        r@ == s@.take(n as int),
{
    let x = chars_of(s);
    text_of(slice_subrange(x.as_slice(), 0, n))
}

/// What stands in `s` after its first `n` characters.
pub fn skip(s: &str, n: usize) -> (r: String)
    requires
        n <= s@.len(),
    ensures
        r@ == s@.skip(n as int),
{
    let x = chars_of(s);
    text_of(slice_subrange(x.as_slice(), n, x.len()))
}

/// Whether `c` is white space.
pub fn white_char(c: char) -> (r: bool)
    ensures
        r == is_white(c),
{
    ('\u{9}' <= c && c <= '\u{d}') || c == ' ' || c == '\u{85}' || c == '\u{a0}' || c == '\u{1680}'
        || ('\u{2000}' <= c && c <= '\u{200a}') || c == '\u{2028}' || c == '\u{2029}' || c
        == '\u{202f}' || c == '\u{205f}' || c == '\u{3000}'
}

/// Whether `c` is an ASCII digit.
pub fn digit_char(c: char) -> (r: bool)
    ensures
        r == is_digit(c),
{
    '0' <= c && c <= '9'
}

/// Whether there is an ASCII digit in `s`.
pub fn any_digit(s: &str) -> (r: bool)
    ensures
        r == has_digit(s@),
{
    let x = chars_of(s);
    let mut i: usize = 0;
    while i < x.len()
        invariant
            i <= x@.len(),
            x@ == s@,
            forall|k: int| 0 <= k < i ==> !is_digit(#[trigger] s@[k]),
        decreases x@.len() - i,
    {
        if digit_char(x[i]) {
            assert(is_digit(s@[i as int]));
            return true;
        }
        i += 1;
    }
    false
}

/// `s` without white space at its end.
pub fn trim_end(s: &str) -> (r: String)
    ensures
        r@ == trimmed_end(s@),
{
    let x = chars_of(s);
    let mut n: usize = x.len();
    assert(x@.take(n as int) =~= s@);
    while n > 0 && white_char(x[n - 1])
        invariant
            n <= x@.len(),
            trimmed_end(s@) == trimmed_end(x@.take(n as int)),
        decreases n,
    {
        n -= 1;
        assert(x@.take(n + 1).drop_last() =~= x@.take(n as int));
    }
    text_of(slice_subrange(x.as_slice(), 0, n))
}

/// `s` without white space at either end.
pub fn trim(s: &str) -> (r: String)
    ensures
        r@ == trimmed(s@),
{
    let e = trim_end(s);
    let x = chars_of(e.as_str());
    let mut n: usize = 0;
    assert(x@.skip(0) =~= x@);
    while n < x.len() && white_char(x[n])
        invariant
            n <= x@.len(),
            trimmed(s@) == without_start(x@.skip(n as int), white()),
        decreases x@.len() - n,
    {
        n += 1;
        assert(x@.skip(n - 1).drop_first() =~= x@.skip(n as int));
    }
    text_of(slice_subrange(x.as_slice(), n, x.len()))
}

/// `s` without the run of the character `c` at its end.
pub fn trim_end_of(s: &str, c: char) -> (r: String)
    ensures
        r@ == without_end(s@, just(c)),
{
    let x = chars_of(s);
    let mut n: usize = x.len();
    assert(x@.take(n as int) =~= s@);
    while n > 0 && x[n - 1] == c
        invariant
            n <= x@.len(),
            without_end(s@, just(c)) == without_end(x@.take(n as int), just(c)),
        decreases n,
    {
        n -= 1;
        assert(x@.take(n + 1).drop_last() =~= x@.take(n as int));
    }
    text_of(slice_subrange(x.as_slice(), 0, n))
}

/// `s` without the run of the character `c` at its start.
pub fn trim_start_of(s: &str, c: char) -> (r: String)
    ensures
        r@ == without_start(s@, just(c)),
{
    let x = chars_of(s);
    let mut n: usize = 0;
    assert(x@.skip(0) =~= x@);
    while n < x.len() && x[n] == c
        invariant
            n <= x@.len(),
            without_start(s@, just(c)) == without_start(x@.skip(n as int), just(c)),
        decreases x@.len() - n,
    {
        n += 1;
        assert(x@.skip(n - 1).drop_first() =~= x@.skip(n as int));
    }
    text_of(slice_subrange(x.as_slice(), n, x.len()))
}

/// How many characters of `x`, from position `from` on, stand before the first
/// `c`.
fn run_to(x: &[char], from: usize, c: char) -> (n: usize)
    requires
        from <= x@.len(),
    ensures
        n == run(x@.skip(from as int), just(c)),
        from + n <= x@.len(),
{
    let mut i: usize = from;
    while i < x.len() && x[i] != c
        invariant
            from <= i <= x@.len(),
            forall|j: int| from <= j < i ==> x@[j] != c,
        decreases x@.len() - i,
    {
        i += 1;
    }
    proof {
        lemma_run_is(x@.skip(from as int), just(c), i - from);
    }
    i - from
}

/// How many characters of `s` stand before the first `c`.
pub fn index_of(s: &str, c: char) -> (n: usize)
    ensures
        n == run(s@, just(c)),
        n <= s@.len(),
{
    let x = chars_of(s);
    assert(x@.skip(0) =~= x@);
    run_to(x.as_slice(), 0, c)
}

/// How many characters of `s` stand before the first white space.
pub fn index_of_white(s: &str) -> (n: usize)
    ensures
        n == run(s@, white()),
        n <= s@.len(),
{
    let x = chars_of(s);
    let mut i: usize = 0;
    while i < x.len() && !white_char(x[i])
        invariant
            i <= x@.len(),
            x@ == s@,
            forall|j: int| 0 <= j < i ==> !is_white(#[trigger] s@[j]),
        decreases x@.len() - i,
    {
        i += 1;
    }
    proof {
        lemma_run_is(s@, white(), i as int);
    }
    i
}

/// The pieces of `s` between the occurrences of `c`.
pub fn split(s: &str, c: char) -> (r: Vec<String>)
    ensures
        texts(r@) == pieces(s@, c),
        r@.len() > 0,
{
    let x = chars_of(s);
    let mut r: Vec<String> = Vec::new();
    let mut from: usize = 0;
    assert(x@.skip(0) =~= x@);
    assert(texts(r@) + pieces(x@, c) =~= pieces(x@, c));
    loop
        invariant
            from <= x@.len(),
            x@ == s@,
            texts(r@) + pieces(x@.skip(from as int), c) == pieces(s@, c),
        decreases x@.len() - from,
    {
        let n = run_to(x.as_slice(), from, c);
        assert(from + n <= x.len());
        let ghost rest = x@.skip(from as int);
        let w = text_of(slice_subrange(x.as_slice(), from, from + n));
        assert(w@ =~= rest.take(n as int));
        let ghost before = r@;
        r.push(w);
        assert(texts(r@) =~= texts(before).push(w@));
        if from + n >= x.len() {
            assert(rest.take(n as int) =~= rest);
            assert(texts(r@) =~= texts(before) + seq![rest]);
            return r;
        }
        from = from + n + 1;
        assert(rest.skip(n + 1) =~= x@.skip(from as int));
        assert(texts(r@) + pieces(x@.skip(from as int), c) =~= texts(before) + (seq![rest.take(
            n as int,
        )] + pieces(rest.skip(n + 1), c)));
    }
}

/// The lines of `s`.
pub fn lines(s: &str) -> (r: Vec<String>)
    ensures
        texts(r@) == lines_of(s@),
{
    let x = chars_of(s);
    let mut r: Vec<String> = Vec::new();
    let mut from: usize = 0;
    assert(x@.skip(0) =~= x@);
    assert(texts(r@) + lines_of(x@) =~= lines_of(x@));
    while from < x.len()
        invariant
            from <= x@.len(),
            x@ == s@,
            texts(r@) + lines_of(x@.skip(from as int)) == lines_of(s@),
        decreases x@.len() - from,
    {
        let n = run_to(x.as_slice(), from, '\n');
        let ghost rest = x@.skip(from as int);
        let ghost before = r@;
        if from + n >= x.len() {
            let w = text_of(slice_subrange(x.as_slice(), from, from + n));
            assert(w@ =~= rest);
            r.push(w);
            assert(texts(r@) =~= texts(before) + seq![rest]);
            return r;
        }
        let mut end: usize = from + n;
        if end > from && x[end - 1] == '\r' {
            end -= 1;
        }
        let w = text_of(slice_subrange(x.as_slice(), from, end));
        assert(w@ =~= unreturned(rest.take(n as int)));
        r.push(w);
        assert(texts(r@) =~= texts(before).push(w@));
        from = from + n + 1;
        assert(rest.skip(n + 1) =~= x@.skip(from as int));
        assert(texts(r@) + lines_of(x@.skip(from as int)) =~= texts(before) + (seq![w@] + lines_of(
            rest.skip(n + 1),
        )));
    }
    assert(texts(r@) + lines_of(x@.skip(from as int)) =~= texts(r@));
    r
}

/// The texts `parts` one after another with `sep` between them.
pub fn join(parts: &Vec<String>, sep: &str) -> (r: String)
    ensures
        r@ == joined(texts(parts@), sep@),
{
    let mut r = String::new();
    let mut i: usize = 0;
    let ghost all = texts(parts@);
    while i < parts.len()
        invariant
            i <= parts@.len(),
            all == texts(parts@),
            r@ == joined(all.take(i as int), sep@),
        decreases parts@.len() - i,
    {
        if i > 0 {
            r.append(sep);
        }
        r.append(parts[i].as_str());
        i += 1;
        assert(all.take(i as int).drop_last() =~= all.take(i - 1));
        assert(all.take(i as int).last() == parts@[i - 1]@);
        if i == 1 {
            assert(r@ =~= all.take(1)[0]);
        }
    }
    assert(all.take(all.len() as int) =~= all);
    r
}

/// `a` and `b` in one text.
pub fn cat(a: &str, b: &str) -> (r: String)
    ensures
        r@ == a@ + b@,
{
    let mut r = a.to_owned();
    r.append(b);
    r
}

/// Three texts in one.
pub fn cat3(a: &str, b: &str, c: &str) -> (r: String)
    ensures
        r@ == a@ + b@ + c@,
{
    let mut r = cat(a, b);
    r.append(c);
    r
}

} // verus!
