//! Whole numbers as text: decimal and hexadecimal, written and read.

use vstd::prelude::*;
use crate::text;

verus! {

// ---- meaning ----

/// The character of the decimal digit `d`.
pub open spec fn digit(d: nat) -> char {
    ((48 + d) as u8) as char
}

/// `n` in decimal, without leading zeros.
pub open spec fn decimal(n: nat) -> Seq<char>
    decreases n,
{
    if n < 10 {
        seq![digit(n)]
    } else {
        decimal(n / 10).push(digit(n % 10))
    }
}

/// `i` in decimal, with a minus sign where it is negative.
pub open spec fn signed(i: int) -> Seq<char> {
    if i < 0 {
        seq!['-'] + decimal((-i) as nat)
    } else {
        decimal(i as nat)
    }
}

/// `s` filled up with zeros in front to `width` characters.
pub open spec fn zero_filled(s: Seq<char>, width: nat) -> Seq<char> {
    if s.len() < width {
        Seq::new((width - s.len()) as nat, |i: int| '0') + s
    } else {
        s
    }
}

/// `i` in decimal, filled up with zeros after its sign to `width` characters.
pub open spec fn padded(i: int, width: nat) -> Seq<char> {
    if i < 0 {
        seq!['-'] + zero_filled(decimal((-i) as nat), (width - 1) as nat)
    } else {
        zero_filled(decimal(i as nat), width)
    }
}

/// The character of the hexadecimal digit `d`, a letter in lower case.
pub open spec fn hex_digit(d: nat) -> char {
    if d < 10 {
        ((48 + d) as u8) as char
    } else {
        ((87 + d) as u8) as char
    }
}

/// `n` in hexadecimal, without leading zeros.
pub open spec fn hexadecimal(n: nat) -> Seq<char>
    decreases n,
{
    if n < 16 {
        seq![hex_digit(n)]
    } else {
        hexadecimal(n / 16).push(hex_digit(n % 16))
    }
}

/// The bytes `b`, each as two hexadecimal digits.
pub open spec fn hex_bytes(b: Seq<u8>) -> Seq<char>
    decreases b.len(),
{
    if b.len() == 0 {
        Seq::empty()
    } else {
        hex_bytes(b.drop_last()).push(hex_digit(b.last() as nat / 16)).push(
            hex_digit(b.last() as nat % 16),
        )
    }
}

/// Whether `s` is made of digits alone.
pub open spec fn all_digits(s: Seq<char>) -> bool {
    forall|i: int| 0 <= i < s.len() ==> text::is_digit(#[trigger] s[i])
}

/// The number that the digits `s` write.
pub open spec fn value(s: Seq<char>) -> nat
    decreases s.len(),
{
    if s.len() == 0 {
        0
    } else {
        value(s.drop_last()) * 10 + (s.last() as nat - 48) as nat
    }
}

/// `s` without one sign character `c` at its start.
pub open spec fn unsigned_part(s: Seq<char>) -> Seq<char> {
    if s.len() > 0 && (s[0] == '+' || s[0] == '-') {
        s.skip(1)
    } else {
        s
    }
}

/// The whole number from 0 to `u64::MAX` that `s` writes: digits, after an
/// optional plus sign.
pub open spec fn parsed_u64(s: Seq<char>) -> Option<u64> {
    let body = unsigned_part(s);
    if (s.len() > 0 && s[0] == '-') || body.len() == 0 || !all_digits(body) || value(body)
        > u64::MAX {
        None
    } else {
        Some(value(body) as u64)
    }
}

/// The whole number from `i64::MIN` to `i64::MAX` that `s` writes: digits, after
/// an optional sign.
pub open spec fn parsed_i64(s: Seq<char>) -> Option<i64> {
    let body = unsigned_part(s);
    let n = if s.len() > 0 && s[0] == '-' {
        -(value(body) as int)
    } else {
        value(body) as int
    };
    if body.len() == 0 || !all_digits(body) || n < i64::MIN || n > i64::MAX {
        None
    } else {
        Some(n as i64)
    }
}

// ---- facts ----

/// More digits write no smaller number.
proof fn lemma_value_grows(s: Seq<char>, n: int)
    requires
        all_digits(s),
        0 <= n <= s.len(),
    ensures
        value(s.take(n)) <= value(s),
    decreases s.len() - n,
{
    if n < s.len() {
        assert(s.take(n + 1).drop_last() =~= s.take(n));
        assert(text::is_digit(s[n]));
        lemma_value_grows(s, n + 1);
    } else {
        assert(s.take(n) =~= s);
    }
}

/// Reading back what `decimal` writes gives the number.
pub proof fn law_decimal_reads_back(n: nat)
    ensures
        all_digits(decimal(n)),
        decimal(n).len() > 0,
        value(decimal(n)) == n,
    decreases n,
{
    reveal_with_fuel(value, 2);
    if n < 10 {
        assert(decimal(n).drop_last() =~= Seq::<char>::empty());
    } else {
        law_decimal_reads_back(n / 10);
        assert(decimal(n).drop_last() =~= decimal(n / 10));
    }
}

/// A number in the range of `i64` reads back as itself.
pub proof fn law_signed_reads_back(i: i64)
    ensures
        parsed_i64(signed(i as int)) == Some(i),
{
    let n = if i < 0 {
        -(i as int)
    } else {
        i as int
    };
    law_decimal_reads_back(n as nat);
    if i < 0 {
        assert(signed(i as int).skip(1) =~= decimal(n as nat));
    } else {
        assert(text::is_digit(decimal(n as nat)[0]));
    }
}

// ---- operations ----

/// The character of the decimal digit `d`.
fn digit_of(d: u8) -> (r: char)
    requires
        d < 10,
    ensures
        r == digit(d as nat),
{
    (48 + d) as char
}

/// `n` in decimal.
pub fn decimal_text(n: u128) -> (r: String)
    ensures
        r@ == decimal(n as nat),
    decreases n,
{
    if n < 10 {
        let mut r = String::new();
        r.push(digit_of(n as u8));
        assert(r@ =~= seq![digit(n as nat)]);
        r
    } else {
        let mut r = decimal_text(n / 10);
        r.push(digit_of((n % 10) as u8));
        r
    }
}

/// The distance of `i` from zero.
fn size_of(i: i128) -> (r: u128)
    ensures
        r == if i < 0 {
            -(i as int)
        } else {
            i as int
        },
{
    if i == i128::MIN {
        170141183460469231731687303715884105728
    } else if i < 0 {
        (-i) as u128
    } else {
        i as u128
    }
}

/// `i` in decimal, with a minus sign where it is negative.
pub fn signed_text(i: i128) -> (r: String)
    ensures
        r@ == signed(i as int),
{
    let d = decimal_text(size_of(i));
    if i < 0 {
        let mut r = String::new();
        r.push('-');
        r.append(d.as_str());
        assert(r@ =~= seq!['-'] + d@);
        r
    } else {
        d
    }
}

/// `s` filled up with zeros in front to `width` characters.
fn zero_fill(s: String, width: usize) -> (r: String)
    ensures
        r@ == zero_filled(s@, width as nat),
{
    let n = s.as_str().unicode_len();
    if n >= width {
        return s;
    }
    let mut r = String::new();
    let mut i: usize = 0;
    while i < width - n
        invariant
            n < width,
            i <= width - n,
            r@ == Seq::new(i as nat, |k: int| '0'),
        decreases width - n - i,
    {
        r.push('0');
        i += 1;
        assert(r@ =~= Seq::new(i as nat, |k: int| '0'));
    }
    r.append(s.as_str());
    r
}

/// `i` in decimal, filled up with zeros after its sign to `width` characters.
pub fn padded_text(i: i128, width: usize) -> (r: String)
    requires
        width > 0,
    ensures
        r@ == padded(i as int, width as nat),
{
    let d = decimal_text(size_of(i));
    if i < 0 {
        let f = zero_fill(d, width - 1);
        let mut r = String::new();
        r.push('-');
        r.append(f.as_str());
        assert(r@ =~= seq!['-'] + f@);
        r
    } else {
        zero_fill(d, width)
    }
}

/// The character of the hexadecimal digit `d`.
fn hex_digit_of(d: u8) -> (r: char)
    requires
        d < 16,
    ensures
        r == hex_digit(d as nat),
{
    if d < 10 {
        (48 + d) as char
    } else {
        (87 + d) as char
    }
}

/// `n` in hexadecimal.
pub fn hex_text(n: usize) -> (r: String)
    ensures
        r@ == hexadecimal(n as nat),
    decreases n,
{
    if n < 16 {
        let mut r = String::new();
        r.push(hex_digit_of(n as u8));
        assert(r@ =~= seq![hex_digit(n as nat)]);
        r
    } else {
        let mut r = hex_text(n / 16);
        r.push(hex_digit_of((n % 16) as u8));
        r
    }
}

/// The bytes `b`, each as two hexadecimal digits.
pub fn hex_of_bytes(b: &[u8]) -> (r: String)
    ensures
        r@ == hex_bytes(b@),
{
    let mut r = String::new();
    let mut i: usize = 0;
    while i < b.len()
        invariant
            i <= b@.len(),
            r@ == hex_bytes(b@.take(i as int)),
        decreases b@.len() - i,
    {
        r.push(hex_digit_of(b[i] / 16));
        r.push(hex_digit_of(b[i] % 16));
        i += 1;
        assert(b@.take(i as int).drop_last() =~= b@.take(i - 1));
    }
    assert(b@.take(b@.len() as int) =~= b@);
    r
}

/// The number that the digits of `x` from position `from` on write, where they
/// are digits, one at least, and the number is `limit` at most.
fn read_digits(x: &Vec<char>, from: usize, limit: u64) -> (r: Option<u64>)
    requires
        from <= x@.len(),
    ensures
        ({
            let body = x@.skip(from as int);
            r == if body.len() == 0 || !all_digits(body) || value(body) > limit {
                None
            } else {
                Some(value(body) as u64)
            }
        }),
{
    let ghost body = x@.skip(from as int);
    if from == x.len() {
        return None;
    }
    let mut k: usize = from;
    while k < x.len()
        invariant
            from <= k <= x@.len(),
            body == x@.skip(from as int),
            forall|j: int| 0 <= j < k - from ==> text::is_digit(#[trigger] body[j]),
        decreases x@.len() - k,
    {
        if !text::digit_char(x[k]) {
            assert(!text::is_digit(body[k - from]));
            return None;
        }
        assert(text::is_digit(body[k - from]));
        k += 1;
    }
    let mut n: u64 = 0;
    let mut i: usize = from;
    assert(body.take(0) =~= Seq::<char>::empty());
    while i < x.len()
        invariant
            from <= i <= x@.len(),
            body == x@.skip(from as int),
            all_digits(body),
            n == value(body.take(i - from)),
            n <= limit,
        decreases x@.len() - i,
    {
        assert(body.take(i - from + 1).drop_last() =~= body.take(i - from));
        assert(text::is_digit(body[i - from]));
        let d: u64 = (x[i] as u8 - 48) as u64;
        let m: u128 = n as u128 * 10 + d as u128;
        proof {
            lemma_value_grows(body, i - from + 1);
        }
        if m > limit as u128 {
            return None;
        }
        n = m as u64;
        i += 1;
    }
    assert(body.take(body.len() as int) =~= body);
    Some(n)
}

/// The whole number from 0 to `u64::MAX` that `s` writes.
pub fn parse_u64(s: &str) -> (r: Option<u64>)
    ensures
        r == parsed_u64(s@),
{
    let x = text::chars_of(s);
    if x.len() > 0 && x[0] == '-' {
        return None;
    }
    let from: usize = if x.len() > 0 && x[0] == '+' {
        1
    } else {
        0
    };
    assert(x@.skip(from as int) =~= unsigned_part(s@));
    read_digits(&x, from, u64::MAX)
}

/// The whole number from `i64::MIN` to `i64::MAX` that `s` writes.
pub fn parse_i64(s: &str) -> (r: Option<i64>)
    ensures
        r == parsed_i64(s@),
{
    let x = text::chars_of(s);
    let below = x.len() > 0 && x[0] == '-';
    let from: usize = if x.len() > 0 && (x[0] == '+' || x[0] == '-') {
        1
    } else {
        0
    };
    assert(x@.skip(from as int) =~= unsigned_part(s@));
    let limit: u64 = if below {
        9223372036854775808
    } else {
        9223372036854775807
    };
    match read_digits(&x, from, limit) {
        None => None,
        Some(n) => if below {
            Some((-(n as i128)) as i64)
        } else {
            Some(n as i64)
        },
    }
}

} // verus!
