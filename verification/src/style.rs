//! The styles that output is shown in.

use vstd::prelude::*;
use crate::text;

verus! {

/// The colors in use.
#[derive(Clone, Copy, Debug, PartialEq, Eq, Structural)]
pub enum Color {
    Red,
    Green,
    Yellow,
    Blue,
    Cyan,
}

/// How a text is shown.
#[derive(Clone, Copy, Debug, PartialEq, Eq)]
pub struct Style {
    pub bold: bool,
    pub dimmed: bool,
    pub underline: bool,
    pub color: Option<Color>,
}

// ---- meaning ----

/// Plain text.
pub open spec fn plain() -> Style {
    Style { bold: false, dimmed: false, underline: false, color: None }
}

/// Plain text in a color.
pub open spec fn colored(c: Color) -> Style {
    Style { bold: false, dimmed: false, underline: false, color: Some(c) }
}

/// Bold text in a color.
pub open spec fn bold_colored(c: Color) -> Style {
    Style { bold: true, dimmed: false, underline: false, color: Some(c) }
}

/// Dimmed text.
pub open spec fn faint() -> Style {
    Style { bold: false, dimmed: true, underline: false, color: None }
}

/// The style of a web address.
pub open spec fn link() -> Style {
    Style { bold: false, dimmed: false, underline: true, color: Some(Color::Blue) }
}

/// The terminal code that turns a color on.
pub open spec fn color_code(c: Color) -> Seq<char> {
    match c {
        Color::Red => "\u{1b}[31m"@,
        Color::Green => "\u{1b}[32m"@,
        Color::Yellow => "\u{1b}[33m"@,
        Color::Blue => "\u{1b}[34m"@,
        Color::Cyan => "\u{1b}[36m"@,
    }
}

/// `t` where `on`, else nothing.
pub open spec fn only_if(on: bool, t: Seq<char>) -> Seq<char> {
    if on {
        t
    } else {
        Seq::empty()
    }
}

/// The terminal codes that turn a style on.
pub open spec fn codes_on(s: Style) -> Seq<char> {
    only_if(s.bold, "\u{1b}[1m"@) + only_if(s.dimmed, "\u{1b}[2m"@) + only_if(
        s.underline,
        "\u{1b}[4m"@,
    ) + match s.color {
        Some(c) => color_code(c),
        None => Seq::empty(),
    }
}

/// The terminal code that turns a style off again; plain text needs none.
pub open spec fn codes_off(s: Style) -> Seq<char> {
    only_if(s != plain(), "\u{1b}[0m"@)
}

/// A text between the codes of its style.
pub open spec fn styled(s: Style, t: Seq<char>) -> Seq<char> {
    codes_on(s) + t + codes_off(s)
}

/// Whether one of the words occurs in `s`.
pub open spec fn any_occurs(words: Seq<Seq<char>>, s: Seq<char>) -> bool {
    exists|i: int| 0 <= i < words.len() && text::occurs_in(#[trigger] words[i], s)
}

/// The words of a state that is resolved.
pub open spec fn resolved_words() -> Seq<Seq<char>> {
    seq!["done"@, "fixed"@, "resolved"@, "verified"@, "closed"@, "complete"@]
}

/// The words of a state that is active.
pub open spec fn active_words() -> Seq<Seq<char>> {
    seq!["open"@, "new"@, "progress"@, "backlog"@, "reopen"@, "to do"@, "wait"@]
}

/// The style of a state: green when resolved, yellow when active, else plain.
pub open spec fn style_of_state(s: Seq<char>) -> Style {
    if any_occurs(resolved_words(), text::lowered(s)) {
        colored(Color::Green)
    } else if any_occurs(active_words(), text::lowered(s)) {
        colored(Color::Yellow)
    } else {
        plain()
    }
}

/// The style of a priority: red, and bold where it is critical; dimmed where it is
/// minor; else plain.
pub open spec fn style_of_priority(s: Seq<char>) -> Style {
    if any_occurs(seq!["critical"@, "show"@, "blocker"@], text::lowered(s)) {
        bold_colored(Color::Red)
    } else if any_occurs(seq!["major"@, "urgent"@], text::lowered(s)) {
        colored(Color::Red)
    } else if text::occurs_in("minor"@, text::lowered(s)) {
        faint()
    } else {
        plain()
    }
}

// ---- laws ----

/// Whether `x` is one terminal code: an escape, a bracket, digits and an `m`.
pub open spec fn is_code(x: Seq<char>) -> bool {
    &&& x.len() >= 4
    &&& x[0] == '\u{1b}'
    &&& x[1] == '['
    &&& x.last() == 'm'
    &&& forall|i: int| 2 <= i < x.len() - 1 ==> text::is_digit(#[trigger] x[i])
}

/// Whether `x` is made of terminal codes alone.
pub open spec fn is_codes(x: Seq<char>) -> bool
    decreases x.len(),
{
    x.len() == 0 || exists|n: int|
        0 <= n < x.len() && is_code(x.skip(n)) && is_codes(#[trigger] x.take(n))
}

/// Whether `x` is the text `t`, whole and once, with nothing but terminal codes around
/// it.
pub open spec fn dresses(x: Seq<char>, t: Seq<char>) -> bool {
    exists|a: Seq<char>, b: Seq<char>|
        is_codes(a) && is_codes(b) && x == #[trigger] (a + t + b)
}

/// Codes with one more behind them are codes.
proof fn lemma_one_code_more(a: Seq<char>, b: Seq<char>)
    requires
        is_codes(a),
        b.len() == 0 || is_code(b),
    ensures
        is_codes(a + b),
{
    if b.len() == 0 {
        assert(a + b =~= a);
    } else {
        let x = a + b;
        let n = a.len() as int;
        assert(x.take(n) =~= a);
        assert(x.skip(n) =~= b);
    }
}

/// A style puts nothing but terminal codes around a text, and leaves the text as it is.
pub proof fn law_styles_leave_the_text(s: Style, t: Seq<char>)
    ensures
        dresses(styled(s, t), t),
        s == plain() ==> styled(s, t) == t,
{
    reveal_strlit("\u{1b}[0m");
    reveal_strlit("\u{1b}[1m");
    reveal_strlit("\u{1b}[2m");
    reveal_strlit("\u{1b}[4m");
    reveal_strlit("\u{1b}[31m");
    reveal_strlit("\u{1b}[32m");
    reveal_strlit("\u{1b}[33m");
    reveal_strlit("\u{1b}[34m");
    reveal_strlit("\u{1b}[36m");
    let none = Seq::<char>::empty();
    let a = only_if(s.bold, "\u{1b}[1m"@);
    let b = only_if(s.dimmed, "\u{1b}[2m"@);
    let c = only_if(s.underline, "\u{1b}[4m"@);
    let d = match s.color {
        Some(c) => color_code(c),
        None => Seq::empty(),
    };
    lemma_one_code_more(none, a);
    assert(none + a =~= a);
    lemma_one_code_more(a, b);
    lemma_one_code_more(a + b, c);
    lemma_one_code_more(a + b + c, d);
    lemma_one_code_more(none, codes_off(s));
    assert(none + codes_off(s) =~= codes_off(s));
    assert(styled(s, t) == codes_on(s) + t + codes_off(s));
    if s == plain() {
        assert(styled(s, t) =~= t);
    }
}

/// A state is green where it holds one of the words for what is resolved, in whatever
/// case; else yellow where it holds one of the words for what is active; else plain.
pub proof fn law_state_colors(s: Seq<char>)
    ensures
        ({
            let l = text::lowered(s);
            let resolved = text::occurs_in("done"@, l) || text::occurs_in("fixed"@, l)
                || text::occurs_in("resolved"@, l) || text::occurs_in("verified"@, l)
                || text::occurs_in("closed"@, l) || text::occurs_in("complete"@, l);
            let active = text::occurs_in("open"@, l) || text::occurs_in("new"@, l)
                || text::occurs_in("progress"@, l) || text::occurs_in("backlog"@, l)
                || text::occurs_in("reopen"@, l) || text::occurs_in("to do"@, l)
                || text::occurs_in("wait"@, l);
            &&& (style_of_state(s).color == Some(Color::Green)) == resolved
            &&& (style_of_state(s).color == Some(Color::Yellow)) == (active && !resolved)
            &&& !resolved && !active ==> style_of_state(s).color is None
            &&& !style_of_state(s).bold && !style_of_state(s).dimmed
                && !style_of_state(s).underline
        }),
{
    let l = text::lowered(s);
    let r = resolved_words();
    let a = active_words();
    assert(r.len() == 6 && a.len() == 7);
    assert(r[0] == "done"@ && r[1] == "fixed"@ && r[2] == "resolved"@ && r[3] == "verified"@
        && r[4] == "closed"@ && r[5] == "complete"@);
    assert(a[0] == "open"@ && a[1] == "new"@ && a[2] == "progress"@ && a[3] == "backlog"@
        && a[4] == "reopen"@ && a[5] == "to do"@ && a[6] == "wait"@);
    assert(any_occurs(r, l) == (text::occurs_in(r[0], l) || text::occurs_in(r[1], l)
        || text::occurs_in(r[2], l) || text::occurs_in(r[3], l) || text::occurs_in(r[4], l)
        || text::occurs_in(r[5], l)));
    assert(any_occurs(a, l) == (text::occurs_in(a[0], l) || text::occurs_in(a[1], l)
        || text::occurs_in(a[2], l) || text::occurs_in(a[3], l) || text::occurs_in(a[4], l)
        || text::occurs_in(a[5], l) || text::occurs_in(a[6], l)));
}

/// A priority is red where it is critical or major, bold too where it is critical;
/// dimmed where it is minor; else plain.
pub proof fn law_priority_colors(s: Seq<char>)
    ensures
        ({
            let l = text::lowered(s);
            let critical = text::occurs_in("critical"@, l) || text::occurs_in("show"@, l)
                || text::occurs_in("blocker"@, l);
            let major = text::occurs_in("major"@, l) || text::occurs_in("urgent"@, l);
            let minor = text::occurs_in("minor"@, l);
            &&& (style_of_priority(s).color == Some(Color::Red)) == (critical || major)
            &&& style_of_priority(s).bold == critical
            &&& style_of_priority(s).dimmed == (minor && !critical && !major)
            &&& !critical && !major ==> style_of_priority(s).color is None
            &&& !style_of_priority(s).underline
        }),
{
    let l = text::lowered(s);
    let r = seq!["critical"@, "show"@, "blocker"@];
    let a = seq!["major"@, "urgent"@];
    assert(r[0] == "critical"@ && r[1] == "show"@ && r[2] == "blocker"@);
    assert(a[0] == "major"@ && a[1] == "urgent"@);
    assert(any_occurs(r, l) == (text::occurs_in(r[0], l) || text::occurs_in(r[1], l)
        || text::occurs_in(r[2], l)));
    assert(any_occurs(a, l) == (text::occurs_in(a[0], l) || text::occurs_in(a[1], l)));
}

/// A text is put between the codes of its style: bold, dimmed, underlined, then its color.
pub proof fn law_codes(t: Seq<char>)
    ensures
        ({
            let off = "\u{1b}[0m"@;
            &&& styled(colored(Color::Red), t) == "\u{1b}[31m"@ + t + off
            &&& styled(colored(Color::Green), t) == "\u{1b}[32m"@ + t + off
            &&& styled(colored(Color::Yellow), t) == "\u{1b}[33m"@ + t + off
            &&& styled(bold_colored(Color::Red), t) == "\u{1b}[1m"@ + "\u{1b}[31m"@ + t + off
            &&& styled(bold_colored(Color::Cyan), t) == "\u{1b}[1m"@ + "\u{1b}[36m"@ + t + off
            &&& styled(faint(), t) == "\u{1b}[2m"@ + t + off
            &&& styled(link(), t) == "\u{1b}[4m"@ + "\u{1b}[34m"@ + t + off
        }),
{
    let off = "\u{1b}[0m"@;
    assert(styled(colored(Color::Red), t) =~= "\u{1b}[31m"@ + t + off);
    assert(styled(colored(Color::Green), t) =~= "\u{1b}[32m"@ + t + off);
    assert(styled(colored(Color::Yellow), t) =~= "\u{1b}[33m"@ + t + off);
    assert(styled(bold_colored(Color::Red), t) =~= "\u{1b}[1m"@ + "\u{1b}[31m"@ + t + off);
    assert(styled(bold_colored(Color::Cyan), t) =~= "\u{1b}[1m"@ + "\u{1b}[36m"@ + t + off);
    assert(styled(faint(), t) =~= "\u{1b}[2m"@ + t + off);
    assert(styled(link(), t) =~= "\u{1b}[4m"@ + "\u{1b}[34m"@ + t + off);
}

// ---- the calls ----

/// `anstyle::Style`, shown with `{}` and with `{:#}`. The first is the code of each
/// effect in turn, then that of the color; the second the code that resets
/// everything, left out where there is nothing to reset.
#[verifier::external_body]
fn codes(s: Style) -> (r: (String, String))
    ensures
        r.0@ == codes_on(s),
        r.1@ == codes_off(s),
{
    let effects = anstyle::Effects::new()
        .set(anstyle::Effects::BOLD, s.bold)
        .set(anstyle::Effects::DIMMED, s.dimmed)
        .set(anstyle::Effects::UNDERLINE, s.underline);
    let color = s.color.map(|c| match c {
        Color::Red => anstyle::AnsiColor::Red,
        Color::Green => anstyle::AnsiColor::Green,
        Color::Yellow => anstyle::AnsiColor::Yellow,
        Color::Blue => anstyle::AnsiColor::Blue,
        Color::Cyan => anstyle::AnsiColor::Cyan,
    });
    let style = anstyle::Style::new().effects(effects).fg_color(color.map(anstyle::Color::Ansi));
    (format!("{style}"), format!("{style:#}"))
}

// ---- operations ----

/// A text between the codes of its style.
pub fn paint(s: Style, t: &str) -> (r: String)
    ensures
        r@ == styled(s, t@),
{
    let (on, off) = codes(s);
    text::cat3(on.as_str(), t, off.as_str())
}

/// The style of issue ids: bold cyan.
pub fn id_style() -> (r: Style)
    ensures
        r == bold_colored(Color::Cyan),
{
    Style { bold: true, dimmed: false, underline: false, color: Some(Color::Cyan) }
}

/// The style of a web address.
pub fn link_style() -> (r: Style)
    ensures
        r == link(),
{
    Style { bold: false, dimmed: false, underline: true, color: Some(Color::Blue) }
}

/// The style of a state: green when resolved, yellow when active, else plain.
pub fn state_style(s: &str) -> (r: Style)
    ensures
        r == style_of_state(s@),
{
    let l = text::lower(s);
    let t = l.as_str();
    if text::contains(t, "done") || text::contains(t, "fixed") || text::contains(t, "resolved")
        || text::contains(t, "verified") || text::contains(t, "closed") || text::contains(
        t,
        "complete",
    ) {
        proof {
            let w = resolved_words();
            assert(text::occurs_in(w[0], t@) || text::occurs_in(w[1], t@) || text::occurs_in(
                w[2],
                t@,
            ) || text::occurs_in(w[3], t@) || text::occurs_in(w[4], t@) || text::occurs_in(
                w[5],
                t@,
            ));
        }
        Style { bold: false, dimmed: false, underline: false, color: Some(Color::Green) }
    } else if text::contains(t, "open") || text::contains(t, "new") || text::contains(
        t,
        "progress",
    ) || text::contains(t, "backlog") || text::contains(t, "reopen") || text::contains(t, "to do")
        || text::contains(t, "wait") {
        proof {
            let w = active_words();
            assert(text::occurs_in(w[0], t@) || text::occurs_in(w[1], t@) || text::occurs_in(
                w[2],
                t@,
            ) || text::occurs_in(w[3], t@) || text::occurs_in(w[4], t@) || text::occurs_in(
                w[5],
                t@,
            ) || text::occurs_in(w[6], t@));
        }
        Style { bold: false, dimmed: false, underline: false, color: Some(Color::Yellow) }
    } else {
        Style { bold: false, dimmed: false, underline: false, color: None }
    }
}

/// The style of a priority: red, and bold where it is critical; dimmed where it is
/// minor; else plain.
pub fn prio_style(s: &str) -> (r: Style)
    ensures
        r == style_of_priority(s@),
{
    let l = text::lower(s);
    let t = l.as_str();
    if text::contains(t, "critical") || text::contains(t, "show") || text::contains(t, "blocker") {
        proof {
            let w = seq!["critical"@, "show"@, "blocker"@];
            assert(text::occurs_in(w[0], t@) || text::occurs_in(w[1], t@) || text::occurs_in(
                w[2],
                t@,
            ));
        }
        Style { bold: true, dimmed: false, underline: false, color: Some(Color::Red) }
    } else if text::contains(t, "major") || text::contains(t, "urgent") {
        proof {
            let w = seq!["major"@, "urgent"@];
            assert(text::occurs_in(w[0], t@) || text::occurs_in(w[1], t@));
        }
        Style { bold: false, dimmed: false, underline: false, color: Some(Color::Red) }
    } else if text::contains(t, "minor") {
        Style { bold: false, dimmed: true, underline: false, color: None }
    } else {
        Style { bold: false, dimmed: false, underline: false, color: None }
    }
}

} // verus!
