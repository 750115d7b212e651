//! What texts, numbers and dates are made of.

use vstd::prelude::*;
use crate::date::Civil;
use crate::date;
use crate::json::JsonView;
use crate::number;
use crate::text;
use crate::wire;

verus! {

// ---- texts ----

/// To put a text in lower case is to put each ASCII capital in lower case and to leave
/// everything else.
pub proof fn law_capitals_are_lowered(s: Seq<char>, i: int)
    requires
        0 <= i < s.len(),
    ensures
        text::lowered(s).len() == s.len(),
        'A' <= s[i] <= 'Z' ==> text::lowered(s)[i] as int == s[i] as int + 32,
        !('A' <= s[i] <= 'Z') ==> text::lowered(s)[i] == s[i],
{
}

/// Whether `s` is white space alone.
pub open spec fn all_white(s: Seq<char>) -> bool {
    forall|i: int| 0 <= i < s.len() ==> text::is_white(#[trigger] s[i])
}

/// White space at the end is taken away, all of it, and nothing else.
pub proof fn law_trimming_the_end(s: Seq<char>)
    ensures
        exists|b: Seq<char>| #[trigger] all_white(b) && s == text::trimmed_end(s) + b,
        text::trimmed_end(s).len() > 0 ==> !text::is_white(text::trimmed_end(s).last()),
    decreases s.len(),
{
    let none = Seq::<char>::empty();
    if s.len() > 0 && text::is_white(s.last()) {
        let d = s.drop_last();
        law_trimming_the_end(d);
        assert(text::trimmed_end(s) == text::trimmed_end(d));
        let b = choose|b: Seq<char>| #[trigger] all_white(b) && d == text::trimmed_end(d) + b;
        let more = b.push(s.last());
        assert(all_white(more)) by {
            assert forall|i: int| 0 <= i < more.len() implies text::is_white(#[trigger] more[i]) by {
                if i < b.len() {
                    assert(more[i] == b[i]);
                }
            }
        }
        assert(s =~= d.push(s.last()));
        assert(s =~= text::trimmed_end(d) + more);
    } else {
        assert(text::trimmed_end(s) == s);
        assert(all_white(none));
        assert(s =~= text::trimmed_end(s) + none);
    }
}

proof fn lemma_without_start(s: Seq<char>)
    ensures
        exists|a: Seq<char>| #[trigger] all_white(a) && s == a + text::without_start(s, text::white()),
        text::without_start(s, text::white()).len() > 0 ==> !text::is_white(
            text::without_start(s, text::white())[0],
        ),
    decreases s.len(),
{
    let none = Seq::<char>::empty();
    let t = text::without_start(s, text::white());
    if s.len() > 0 && text::is_white(s[0]) {
        let d = s.drop_first();
        lemma_without_start(d);
        assert(t == text::without_start(d, text::white()));
        let a = choose|a: Seq<char>| #[trigger] all_white(a) && d == a + t;
        let more = seq![s[0]] + a;
        assert(all_white(more)) by {
            assert forall|i: int| 0 <= i < more.len() implies text::is_white(#[trigger] more[i]) by {
                if i > 0 {
                    assert(more[i] == a[i - 1]);
                }
            }
        }
        assert(s =~= seq![s[0]] + d);
        assert(s =~= more + t);
    } else {
        assert(t == s);
        assert(all_white(none));
        assert(s =~= none + t);
    }
}

/// Whether `t` is `s` without white space around it.
pub open spec fn stands_in(t: Seq<char>, s: Seq<char>) -> bool {
    exists|a: Seq<char>, b: Seq<char>|
        all_white(a) && all_white(b) && s == #[trigger] (a + t + b)
}

/// White space around a text is taken away, all of it, and nothing else.
pub proof fn law_trimming(s: Seq<char>)
    ensures
        stands_in(text::trimmed(s), s),
        text::trimmed(s).len() > 0 ==> !text::is_white(text::trimmed(s)[0]) && !text::is_white(
            text::trimmed(s).last(),
        ),
{
    law_trimming_the_end(s);
    let e = text::trimmed_end(s);
    let b = choose|b: Seq<char>| #[trigger] all_white(b) && s == e + b;
    lemma_without_start(e);
    let t = text::trimmed(s);
    let a = choose|a: Seq<char>| #[trigger] all_white(a) && e == a + t;
    assert(s == a + t + b);
    if t.len() > 0 {
        assert(t.last() == e.last());
    }
}

/// Texts are joined with the separator between each two.
pub proof fn law_joining(parts: Seq<Seq<char>>, x: Seq<char>, sep: Seq<char>)
    ensures
        text::joined(Seq::empty(), sep).len() == 0,
        text::joined(seq![x], sep) == x,
        parts.len() > 0 ==> text::joined(parts.push(x), sep) == text::joined(parts, sep) + sep + x,
{
    assert(parts.push(x).drop_last() =~= parts);
}

/// Whether there is no line feed in `s`.
pub open spec fn is_line(s: Seq<char>) -> bool {
    forall|i: int| 0 <= i < s.len() ==> #[trigger] s[i] != '\n'
}

/// A text is read line by line, each without its line feed and a carriage return before
/// that; the last need not have one.
pub proof fn law_lines(l: Seq<char>, rest: Seq<char>)
    requires
        is_line(l),
    ensures
        text::lines_of(Seq::empty()).len() == 0,
        l.len() > 0 ==> text::lines_of(l) == seq![l],
        l.len() == 0 || l.last() != '\r' ==> text::lines_of(l + seq!['\n'] + rest) == seq![l]
            + text::lines_of(rest),
        text::lines_of(l + seq!['\r'] + seq!['\n'] + rest) == seq![l] + text::lines_of(rest),
{
    let f = text::just('\n');
    text::lemma_run_is(l, f, l.len() as int);
    let a = l + seq!['\n'] + rest;
    text::lemma_run_is(a, f, l.len() as int);
    assert(a.take(l.len() as int) =~= l);
    assert(a.skip(l.len() as int + 1) =~= rest);
    let b = l + seq!['\r'] + seq!['\n'] + rest;
    text::lemma_run_is(b, f, l.len() as int + 1);
    assert(b.take(l.len() as int + 1) =~= l.push('\r'));
    assert(l.push('\r').drop_last() =~= l);
    assert(b.skip(l.len() as int + 2) =~= rest);
}

/// A text is split at each occurrence of a character.
pub proof fn law_pieces(p: Seq<char>, c: char, rest: Seq<char>)
    requires
        !p.contains(c),
    ensures
        text::pieces(p, c) == seq![p],
        text::pieces(p + seq![c] + rest, c) == seq![p] + text::pieces(rest, c),
{
    let f = text::just(c);
    assert forall|i: int| 0 <= i < p.len() implies !f(#[trigger] p[i]) by {
        assert(p.contains(p[i]));
    }
    text::lemma_run_is(p, f, p.len() as int);
    let a = p + seq![c] + rest;
    text::lemma_run_is(a, f, p.len() as int);
    assert(a.take(p.len() as int) =~= p);
    assert(a.skip(p.len() as int + 1) =~= rest);
}

/// A text occurs in another where that is made of it and what stands around it.
pub proof fn law_occurring(part: Seq<char>, s: Seq<char>, a: Seq<char>, b: Seq<char>)
    ensures
        text::occurs_in(part, a + part + b),
        text::occurs_in(part, s) ==> exists|x: Seq<char>, y: Seq<char>| s == #[trigger] (x + part + y),
{
    let t = a + part + b;
    assert(t.subrange(a.len() as int, a.len() as int + part.len()) =~= part);
    if text::occurs_in(part, s) {
        let i = choose|i: int|
            0 <= i <= s.len() - part.len() && #[trigger] s.subrange(i, i + part.len()) == part;
        assert(s =~= s.take(i) + part + s.skip(i + part.len()));
    }
}

// ---- numbers ----

/// A number is written without zeros in front.
pub proof fn law_no_leading_zero(n: nat)
    ensures
        n > 0 ==> number::decimal(n)[0] != '0',
        n == 0 ==> number::decimal(n) == seq!['0'],
        number::signed(n as int) == number::decimal(n),
        n > 0 ==> number::signed(-(n as int)) == seq!['-'] + number::decimal(n),
    decreases n,
{
    if n >= 10 {
        law_no_leading_zero(n / 10);
        number::law_decimal_reads_back(n / 10);
    }
}

/// A number that is filled up with zeros has as many digits as it is filled up to, unless
/// it needs more, and is the same number; a minus sign counts as one of them.
pub proof fn law_padding(n: nat, width: nat)
    ensures
        number::padded(n as int, width).len() == if number::decimal(n).len() < width {
            width
        } else {
            number::decimal(n).len()
        },
        number::all_digits(number::padded(n as int, width)),
        number::value(number::padded(n as int, width)) == n,
        n > 0 && width > 0 ==> number::padded(-(n as int), width) == seq!['-'] + number::padded(
            n as int,
            (width - 1) as nat,
        ),
{
    number::law_decimal_reads_back(n);
    let d = number::decimal(n);
    if d.len() < width {
        let k = (width - d.len()) as nat;
        lemma_zeros(k, d);
    }
}

proof fn lemma_zeros(k: nat, d: Seq<char>)
    requires
        number::all_digits(d),
    ensures
        number::all_digits(Seq::new(k, |i: int| '0') + d),
        number::value(Seq::new(k, |i: int| '0') + d) == number::value(d),
    decreases d.len() + k,
{
    let z = Seq::new(k, |i: int| '0');
    let s = z + d;
    assert forall|i: int| 0 <= i < s.len() implies text::is_digit(#[trigger] s[i]) by {
        if i >= k {
            assert(text::is_digit(d[i - k]));
        }
    }
    if d.len() > 0 {
        let e = d.drop_last();
        assert(number::all_digits(e)) by {
            assert forall|i: int| 0 <= i < e.len() implies text::is_digit(#[trigger] e[i]) by {
                assert(text::is_digit(d[i]));
            }
        }
        lemma_zeros(k, e);
        assert(s.drop_last() =~= z + e);
        assert(s.last() == d.last());
    } else if k > 0 {
        let y = Seq::new((k - 1) as nat, |i: int| '0');
        lemma_zeros((k - 1) as nat, d);
        assert(y + d =~= y);
        assert(s.drop_last() =~= y + d);
        assert(s.last() == '0');
    } else {
        assert(s =~= d);
    }
}

/// The number that a hexadecimal digit writes.
pub open spec fn hex_value(c: char) -> int {
    if '0' <= c <= '9' {
        c as int - '0' as int
    } else if 'a' <= c <= 'f' {
        c as int - 'a' as int + 10
    } else {
        -1
    }
}

/// Bytes are written as two digits each, the first for the sixteens.
pub proof fn law_bytes_in_hexadecimal(b: Seq<u8>, i: int)
    requires
        0 <= i < b.len(),
    ensures
        number::hex_bytes(b).len() == 2 * b.len(),
        0 <= hex_value(number::hex_bytes(b)[2 * i]) < 16,
        0 <= hex_value(number::hex_bytes(b)[2 * i + 1]) < 16,
        hex_value(number::hex_bytes(b)[2 * i]) * 16 + hex_value(number::hex_bytes(b)[2 * i + 1])
            == b[i],
    decreases b.len(),
{
    let d = b.drop_last();
    lemma_hex_length(d);
    lemma_hex_length(b);
    let h = b.last() as nat / 16;
    let l = b.last() as nat % 16;
    assert(h < 16 && l < 16);
    assert(hex_value(number::hex_digit(h)) == h);
    assert(hex_value(number::hex_digit(l)) == l);
    if i < d.len() {
        law_bytes_in_hexadecimal(d, i);
    }
}

proof fn lemma_hex_length(b: Seq<u8>)
    ensures
        number::hex_bytes(b).len() == 2 * b.len(),
    decreases b.len(),
{
    if b.len() > 0 {
        lemma_hex_length(b.drop_last());
    }
}

// ---- dates ----

/// How many days each month has.
pub proof fn law_months(y: int)
    ensures
        forall|m: int| #[trigger]
            date::month_length(y, m) == 31 || !(m == 1 || m == 3 || m == 5 || m == 7 || m == 8 || m
                == 10 || m == 12),
        forall|m: int| #[trigger]
            date::month_length(y, m) == 30 || !(m == 4 || m == 6 || m == 9 || m == 11),
        date::month_length(y, 2) == if y % 4 == 0 && y % 100 != 0 || y % 400 == 0 {
            29int
        } else {
            28
        },
{
}

/// Days are counted from the first of January 1970, one for each day of each month.
pub proof fn law_days_follow(c: Civil, next: Civil)
    requires
        1 <= c.month <= 12,
    ensures
        c.year == 1970 && c.month == 1 && c.day == 1 ==> date::day_number(c) == 0,
        next.year == c.year && next.month == c.month && next.day == c.day + 1 ==> date::day_number(
            next,
        ) == date::day_number(c) + 1,
        c.month < 12 && c.day == date::month_length(c.year as int, c.month as int) && next.year
            == c.year && next.month == c.month + 1 && next.day == 1 ==> date::day_number(next)
            == date::day_number(c) + 1,
        c.month == 12 && c.day == 31 && next.year == c.year + 1 && next.month == 1 && next.day == 1
            ==> date::day_number(next) == date::day_number(c) + 1,
{
    date::law_years_follow(c.year as int);
    date::lemma_months(c.year as int);
    date::lemma_months(next.year as int);
}

/// A moment is shown as the date on which it lies: the year, the month and the day, with
/// four, two and two digits at least; what is no moment as a dash.
pub proof fn law_moments_are_shown(v: JsonView, ms: i64, c: Civil)
    requires
        date::valid_date(c),
        date::day_number(c) * 86_400_000 <= ms < date::day_number(c) * 86_400_000 + 86_400_000,
    ensures
        v == JsonView::Integer(ms as int) ==> date::shown_date(v) == number::padded(
            c.year as int,
            4,
        ) + "-"@ + number::padded(c.month as int, 2) + "-"@ + number::padded(c.day as int, 2),
        !(v is Integer) ==> date::shown_date(v) == "-"@,
{
    reveal_strlit("-");
    assert("-"@ =~= seq!['-']);
    let n = date::day_number(c);
    assert(ms as int / 86_400_000 == n) by (nonlinear_arith)
        requires
            n * 86_400_000 <= ms < n * 86_400_000 + 86_400_000,
    ;
    let d = date::date_of(n);
    assert(date::valid_date(d) && date::day_number(d) == n);
    date::law_one_date_per_day(c, d);
}

/// A whole number may have a plus sign; what holds anything else than digits behind its
/// sign is none.
pub proof fn law_whole_numbers_are_read(s: Seq<char>, n: nat, i: int)
    ensures
        n <= u64::MAX ==> (number::parsed_u64(number::decimal(n)) matches Some(x) && x == n),
        n <= u64::MAX ==> (number::parsed_u64(seq!['+'] + number::decimal(n)) matches Some(x) && x
            == n),
        n > u64::MAX ==> number::parsed_u64(number::decimal(n)) is None,
        number::parsed_u64(seq!['-'] + s) is None,
        n <= i64::MAX ==> (number::parsed_i64(seq!['+'] + number::decimal(n)) matches Some(x) && x
            == n),
        n > i64::MAX ==> number::parsed_i64(number::decimal(n)) is None,
        0 < i < s.len() && !text::is_digit(s[i]) ==> number::parsed_u64(s) is None
            && number::parsed_i64(s) is None,
        s.len() == 0 ==> number::parsed_u64(s) is None && number::parsed_i64(s) is None,
        s.len() == 1 && !text::is_digit(s[0]) ==> number::parsed_u64(s) is None
            && number::parsed_i64(s) is None,
{
    let d = number::decimal(n);
    number::law_decimal_reads_back(n);
    assert(text::is_digit(d[0]));
    assert((seq!['+'] + d).skip(1) =~= d);
    assert((seq!['-'] + s)[0] == '-');
    let body = number::unsigned_part(s);
    if 0 < i < s.len() && !text::is_digit(s[i]) {
        if body.len() == s.len() {
            assert(body[i] == s[i]);
        } else {
            assert(body[i - 1] == s[i]);
        }
        assert(!number::all_digits(body));
    }
    if s.len() == 1 && !text::is_digit(s[0]) && body.len() == 1 {
        assert(body[0] == s[0]);
    }
}

/// The number that hexadecimal digits write.
pub open spec fn hex_number(s: Seq<char>) -> int
    decreases s.len(),
{
    if s.len() == 0 {
        0
    } else {
        hex_number(s.drop_last()) * 16 + hex_value(s.last())
    }
}

/// A number in hexadecimal reads back as itself.
pub proof fn law_hexadecimal_reads_back(n: nat)
    ensures
        number::hexadecimal(n).len() > 0,
        hex_number(number::hexadecimal(n)) == n,
    decreases n,
{
    reveal_with_fuel(hex_number, 2);
    let h = number::hexadecimal(n);
    if n < 16 {
        assert(h.drop_last() =~= Seq::empty());
        assert(hex_value(number::hex_digit(n)) == n);
    } else {
        law_hexadecimal_reads_back(n / 16);
        assert(h.drop_last() =~= number::hexadecimal(n / 16));
        assert(hex_value(number::hex_digit(n % 16)) == n % 16);
    }
}

/// A text is quoted character by character: a quotation mark and a backslash get a
/// backslash before them, what a terminal takes as a command a name of its own, and
/// everything else stays.
pub proof fn law_quoting(s: Seq<char>, c: char)
    ensures
        wire::escaped(Seq::empty()).len() == 0,
        wire::escaped(s.push(c)) == wire::escaped(s) + wire::escaped_char(c),
        wire::escaped_char('"') == seq!['\\', '"'],
        wire::escaped_char('\\') == seq!['\\', '\\'],
        wire::escaped_char('\n') == seq!['\\', 'n'],
        wire::escaped_char('\r') == seq!['\\', 'r'],
        wire::escaped_char('\t') == seq!['\\', 't'],
        wire::escaped_char('\u{8}') == seq!['\\', 'b'],
        wire::escaped_char('\u{c}') == seq!['\\', 'f'],
        c >= ' ' && c != '"' && c != '\\' ==> wire::escaped_char(c) == seq![c],
        c < ' ' ==> wire::escaped_char(c).len() >= 2 && wire::escaped_char(c)[0] == '\\',
{
    assert(s.push(c).drop_last() =~= s);
}

/// White space is what separates words, lines and columns in any script; digits are the
/// ten of ASCII.
pub proof fn law_white_space_and_digits(c: char)
    ensures
        ({
            let n = c as int;
            &&& text::is_white(c) <==> 9 <= n <= 13 || n == 0x20 || n == 0x85 || n == 0xa0 || n
                == 0x1680 || 0x2000 <= n <= 0x200a || n == 0x2028 || n == 0x2029 || n == 0x202f || n
                == 0x205f || n == 0x3000
            &&& text::is_digit(c) <==> 48 <= n <= 57
        }),
{
}

/// A text is a number where it reads as one that has a finite value; null where that is too
/// large, which a text without a digit never is.
pub proof fn law_numbers_of_texts(s: Seq<char>, t: Seq<char>, i: int)
    ensures
        wire::double(s) == Some(Some(t)) ==> wire::as_number(s) == Some(JsonView::Float(t)),
        wire::double(s) == None::<Option<Seq<char>>> ==> wire::as_number(s) is None,
        wire::double(s) == Some(None::<Seq<char>>) && 0 <= i < s.len() && text::is_digit(s[i])
            ==> wire::as_number(s) == Some(JsonView::Null),
        wire::double(s) == Some(None::<Seq<char>>) && (forall|k: int|
            0 <= k < s.len() ==> !text::is_digit(#[trigger] s[k])) ==> wire::as_number(s) is None,
{
}

} // verus!
