//! What is printed, and the steps of which a command is made.

use vstd::prelude::*;

verus! {

/// A text to print, with an end of line behind it: as it is, or with the styles in
/// it where the terminal takes them, both as the output, or as a note beside it.
#[derive(Debug, PartialEq, Eq)]
pub enum Line {
    Plain(String),
    Styled(String),
    Note(String),
}

/// The mathematical model of a [`Line`].
pub enum LineView {
    Plain(Seq<char>),
    Styled(Seq<char>),
    Note(Seq<char>),
}

impl View for Line {
    type V = LineView;

    open spec fn view(&self) -> LineView {
        match self {
            Line::Plain(t) => LineView::Plain(t@),
            Line::Styled(t) => LineView::Styled(t@),
            Line::Note(t) => LineView::Note(t@),
        }
    }
}

/// The models of the lines `s`.
pub open spec fn views(s: Seq<Line>) -> Seq<LineView> {
    s.map_values(|l: Line| l@)
}

/// A step of a command: what to print, and what to do then.
pub struct Step<N> {
    pub lines: Vec<Line>,
    pub next: N,
}

/// The mathematical model of a [`Step`].
#[verifier::ext_equal]
pub struct StepView<N> {
    pub lines: Seq<LineView>,
    pub next: N,
}

impl<N: View> View for Step<N> {
    type V = StepView<N::V>;

    open spec fn view(&self) -> StepView<N::V> {
        StepView { lines: views(self.lines@), next: self.next@ }
    }
}

/// The step that prints nothing.
pub open spec fn silent<N>(next: N) -> StepView<N> {
    StepView { lines: Seq::empty(), next }
}

/// The step that prints the one line `t`.
pub open spec fn saying<N>(t: Seq<char>, next: N) -> StepView<N> {
    StepView { lines: only(t), next }
}

/// The one line `t`, as it is.
pub open spec fn only(t: Seq<char>) -> Seq<LineView> {
    seq![LineView::Plain(t)]
}

/// The step that prints nothing.
pub fn quiet<N: View>(next: N) -> (r: Step<N>)
    ensures
        r@ == silent(next@),
{
    Step { lines: nothing(), next }
}

/// The step that prints the one line `t`.
pub fn say<N: View>(t: String, next: N) -> (r: Step<N>)
    ensures
        r@ == saying(t@, next@),
{
    Step { lines: just(t), next }
}

/// No line.
pub fn nothing() -> (r: Vec<Line>)
    ensures
        views(r@) == Seq::<LineView>::empty(),
{
    let r: Vec<Line> = Vec::new();
    assert(views(r@) =~= Seq::empty());
    r
}

/// The one line `t`, as it is.
pub fn just(t: String) -> (r: Vec<Line>)
    ensures
        views(r@) == only(t@),
{
    let mut r: Vec<Line> = Vec::new();
    r.push(Line::Plain(t));
    assert(views(r@) =~= only(t@));
    r
}

/// Puts the line `l` behind the lines `v`.
pub fn put(v: &mut Vec<Line>, l: Line)
    ensures
        views(final(v)@) == views(old(v)@).push(l@),
{
    v.push(l);
    assert(views(v@) =~= views(old(v)@).push(l@));
}

/// The lines `b` behind the lines `a`.
pub fn both(a: Vec<Line>, b: Vec<Line>) -> (r: Vec<Line>)
    ensures
        views(r@) == views(a@) + views(b@),
{
    let mut r = a;
    let mut more = b;
    r.append(&mut more);
    assert(views(r@) =~= views(a@) + views(b@));
    r
}

} // verus!
