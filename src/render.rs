//! Colours, render passes and the steps a plan is made of.

use vstd::prelude::*;
use crate::sound::Cue;

verus! {

/// A foreground colour the terminal can show. The plain names are the
/// terminal's bright colours (bright blue, bright magenta, ...); the `Dark`
/// names are its normal-intensity ones.
#[derive(Clone, Copy, Debug, PartialEq, Eq, Structural)]
pub enum Color {
    Rgb { r: u8, g: u8, b: u8 },
    White,
    Red,
    Yellow,
    Green,
    Cyan,
    DarkCyan,
    Blue,
    DarkBlue,
    DarkYellow,
    Magenta,
    DarkMagenta,
}

/// One redraw of `text` starting at cell (`col`, `row`) in `color`, held on
/// screen for `hold_ms` milliseconds before the next step runs.
#[derive(Clone, Debug)]
pub struct Pass {
    pub text: Vec<char>,
    pub col: u16,
    pub row: u16,
    pub color: Color,
    pub hold_ms: u64,
}

/// One instruction for the terminal driver.
#[derive(Clone, Debug)]
pub enum Step {
    /// Move to the pass's cell, write its text in its colour, reset the
    /// colour, flush, then wait for the pass's hold time.
    Draw(Pass),
    /// Write text at the cursor in a colour, then reset the colour.
    Write(Vec<char>, Color),
    /// Move the cursor to a column of the current row.
    Column(u16),
    /// Move the cursor to an absolute cell (column, row).
    MoveTo(u16, u16),
    /// Emit a line break.
    NewLine,
    /// Wait for the given number of milliseconds.
    Pause(u64),
    /// Erase the whole visible screen.
    Clear,
    /// Remember the cursor position.
    SaveCursor,
    /// Return the cursor to the remembered position.
    RestoreCursor,
    /// Play an audio cue; a cue that cannot be played is skipped.
    Play(Cue),
}

/// The mathematical content of a [`Pass`].
pub struct PassView {
    pub text: Seq<char>,
    pub col: int,
    pub row: int,
    pub color: Color,
    pub hold_ms: int,
}

/// The mathematical content of a [`Step`].
pub enum StepView {
    Draw(PassView),
    Write(Seq<char>, Color),
    Column(int),
    MoveTo(int, int),
    NewLine,
    Pause(int),
    Clear,
    SaveCursor,
    RestoreCursor,
    Play(Cue),
}

impl View for Pass {
    type V = PassView;

    open spec fn view(&self) -> PassView {
        PassView {
            text: self.text@,
            col: self.col as int,
            row: self.row as int,
            color: self.color,
            hold_ms: self.hold_ms as int,
        }
    }
}

impl View for Step {
    type V = StepView;

    open spec fn view(&self) -> StepView {
        match self {
            Step::Draw(p) => StepView::Draw(p@),
            Step::Write(t, c) => StepView::Write(t@, *c),
            Step::Column(c) => StepView::Column(*c as int),
            Step::MoveTo(c, r) => StepView::MoveTo(*c as int, *r as int),
            Step::NewLine => StepView::NewLine,
            Step::Pause(ms) => StepView::Pause(*ms as int),
            Step::Clear => StepView::Clear,
            Step::SaveCursor => StepView::SaveCursor,
            Step::RestoreCursor => StepView::RestoreCursor,
            Step::Play(c) => StepView::Play(*c),
        }
    }
}

/// The views of a sequence of steps.
pub open spec fn steps_view(s: Seq<Step>) -> Seq<StepView> {
    s.map_values(|x: Step| x@)
}

/// A draw step of `text` at (`col`, `row`).
pub open spec fn draw(text: Seq<char>, col: int, row: int, color: Color, hold_ms: int) -> StepView {
    StepView::Draw(PassView { text, col, row, color, hold_ms })
}

/// Whether a pass writes the cell (`col`, `row`).
pub open spec fn covers(p: PassView, col: int, row: int) -> bool {
    p.row == row && p.col <= col < p.col + p.text.len()
}

/// The colour a single step leaves on a cell, if it writes that cell.
pub open spec fn drawn_shade(s: StepView, col: int, row: int) -> Option<Color> {
    match s {
        StepView::Draw(p) => if covers(p, col, row) {
            Some(p.color)
        } else {
            None
        },
        _ => None,
    }
}

/// The colour a cell shows after a sequence of steps: that of the last draw
/// which wrote it, or `None` when no draw wrote it.
pub open spec fn shade_of(steps: Seq<StepView>, col: int, row: int) -> Option<Color>
    decreases steps.len(),
{
    if steps.len() == 0 {
        None
    } else {
        let d = drawn_shade(steps.last(), col, row);
        if d is Some {
            d
        } else {
            shade_of(steps.drop_last(), col, row)
        }
    }
}

/// A single step shows what it draws.
pub proof fn lemma_shade_single(s: StepView, col: int, row: int)
    ensures
        shade_of(seq![s], col, row) == drawn_shade(s, col, row),
{
    assert(seq![s].drop_last() =~= Seq::<StepView>::empty());
    reveal_with_fuel(shade_of, 2);
}

/// After `a` then `b`, a cell shows what `b` last drew on it, or else what
/// `a` left.
pub proof fn lemma_shade_concat(a: Seq<StepView>, b: Seq<StepView>, col: int, row: int)
    ensures
        shade_of(a + b, col, row) == if shade_of(b, col, row) is Some {
            shade_of(b, col, row)
        } else {
            shade_of(a, col, row)
        },
    decreases b.len(),
{
    if b.len() == 0 {
        assert(a + b =~= a);
    } else {
        assert((a + b).drop_last() =~= a + b.drop_last());
        assert((a + b).last() == b.last());
        lemma_shade_concat(a, b.drop_last(), col, row);
    }
}

/// Appends one step to a plan.
pub fn emit(plan: &mut Vec<Step>, s: Step)
    ensures
        steps_view(final(plan)@) == steps_view(old(plan)@).push(s@),
{
    plan.push(s);
    assert(steps_view(plan@) =~= steps_view(old(plan)@).push(s@));
}

/// Appends every step of `more` to a plan.
pub fn emit_all(plan: &mut Vec<Step>, more: Vec<Step>)
    ensures
        steps_view(final(plan)@) == steps_view(old(plan)@) + steps_view(more@),
{
    let ghost added = more@;
    let mut more = more;
    plan.append(&mut more);
    assert(steps_view(plan@) =~= steps_view(old(plan)@) + steps_view(added));
}

/// The characters of a string, in order.
pub fn chars_of(s: &str) -> (r: Vec<char>)
    ensures
        r@ == s@,
{
    let n = s.unicode_len();
    let mut r: Vec<char> = Vec::new();
    let mut i: usize = 0;
    while i < n
        invariant
            n == s@.len(),
            i <= n,
            r@ == s@.take(i as int),
        decreases n - i,
    {
        r.push(s.get_char(i));
        i += 1;
        assert(r@ =~= s@.take(i as int));
    }
    assert(r@ =~= s@);
    r
}

} // verus!
