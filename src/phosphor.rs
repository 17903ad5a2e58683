//! Phosphor persistence: text redrawn in place through a decaying colour ramp.

use vstd::prelude::*;
use crate::render::{
    chars_of, draw, drawn_shade, emit, lemma_shade_concat, lemma_shade_single, shade_of, steps_view,
    Color, Pass, Step, StepView,
};

verus! {

/// The phosphor colour scheme of the simulated tube.
#[derive(Clone, Copy, Debug, PartialEq, Eq, Structural)]
pub enum PhosphorType {
    Green,
    Amber,
    Blue,
}

/// The (bright, medium, dim) colour ramp of a scheme.
pub open spec fn ramp(t: PhosphorType) -> (Color, Color, Color) {
    match t {
        PhosphorType::Green => (
            Color::Rgb { r: 144, g: 238, b: 144 },
            Color::Rgb { r: 85, g: 160, b: 85 },
            Color::Rgb { r: 40, g: 80, b: 40 },
        ),
        PhosphorType::Amber => (
            Color::Rgb { r: 255, g: 176, b: 0 },
            Color::Rgb { r: 180, g: 120, b: 0 },
            Color::Rgb { r: 100, g: 70, b: 0 },
        ),
        PhosphorType::Blue => (
            Color::Rgb { r: 100, g: 180, b: 255 },
            Color::Rgb { r: 65, g: 120, b: 180 },
            Color::Rgb { r: 30, g: 60, b: 120 },
        ),
    }
}

/// The summed channel intensity of an RGB colour (zero for named colours).
pub open spec fn luminance(c: Color) -> int {
    match c {
        Color::Rgb { r, g, b } => r + g + b,
        _ => 0,
    }
}

/// The colour ramp of a phosphor scheme.
pub fn get_phosphor_colors(phosphor_type: PhosphorType) -> (r: (Color, Color, Color))
    ensures
        r == ramp(phosphor_type),
        luminance(r.0) > luminance(r.1) > luminance(r.2) > 0,
{
    match phosphor_type {
        PhosphorType::Green => (
            Color::Rgb { r: 144, g: 238, b: 144 },
            Color::Rgb { r: 85, g: 160, b: 85 },
            Color::Rgb { r: 40, g: 80, b: 40 },
        ),
        PhosphorType::Amber => (
            Color::Rgb { r: 255, g: 176, b: 0 },
            Color::Rgb { r: 180, g: 120, b: 0 },
            Color::Rgb { r: 100, g: 70, b: 0 },
        ),
        PhosphorType::Blue => (
            Color::Rgb { r: 100, g: 180, b: 255 },
            Color::Rgb { r: 65, g: 120, b: 180 },
            Color::Rgb { r: 30, g: 60, b: 120 },
        ),
    }
}

/// The four passes of the whole-string glow: bright, medium and dim, each
/// held for the glow delay, then the settled white.
pub open spec fn glow_spec(text: Seq<char>, x: int, y: int, t: PhosphorType, delay: int) -> Seq<
    StepView,
> {
    seq![
        draw(text, x, y, ramp(t).0, delay),
        draw(text, x, y, ramp(t).1, delay),
        draw(text, x, y, ramp(t).2, delay),
        draw(text, x, y, Color::White, 0),
    ]
}

/// The steps that print `text` at (`x`, `y`) with phosphor persistence.
pub fn glow_steps(text: &str, x: u16, y: u16, phosphor_type: PhosphorType, glow_delay_ms: u64) -> (r:
    Vec<Step>)
    ensures
        steps_view(r@) == glow_spec(text@, x as int, y as int, phosphor_type, glow_delay_ms as int),
{
    let chars = chars_of(text);
    let (bright, medium, dim) = get_phosphor_colors(phosphor_type);
    let mut plan: Vec<Step> = Vec::new();
    emit(&mut plan, Step::Draw(Pass { text: chars.clone(), col: x, row: y, color: bright, hold_ms: glow_delay_ms }));
    emit(&mut plan, Step::Draw(Pass { text: chars.clone(), col: x, row: y, color: medium, hold_ms: glow_delay_ms }));
    emit(&mut plan, Step::Draw(Pass { text: chars.clone(), col: x, row: y, color: dim, hold_ms: glow_delay_ms }));
    emit(&mut plan, Step::Draw(Pass { text: chars, col: x, row: y, color: Color::White, hold_ms: 0 }));
    assert(steps_view(plan@) =~= glow_spec(text@, x as int, y as int, phosphor_type, glow_delay_ms as int));
    plan
}

/// The steps that type character `i`: it appears bright, the one before it
/// drops to medium, the one before that to dim, the one three back returns
/// to white, then the typing delay passes.
pub open spec fn char_glow(text: Seq<char>, x: int, y: int, t: PhosphorType, delay: int, i: int) -> Seq<
    StepView,
> {
    seq![draw(seq![text[i]], x + i, y, ramp(t).0, 0)] + (if i >= 1 {
        seq![draw(seq![text[i - 1]], x + i - 1, y, ramp(t).1, 0)]
    } else {
        seq![]
    }) + (if i >= 2 {
        seq![draw(seq![text[i - 2]], x + i - 2, y, ramp(t).2, 0)]
    } else {
        seq![]
    }) + (if i >= 3 {
        seq![draw(seq![text[i - 3]], x + i - 3, y, Color::White, 0)]
    } else {
        seq![]
    }) + seq![StepView::Pause(delay)]
}

/// The steps that type the first `m` characters.
pub open spec fn typed(text: Seq<char>, x: int, y: int, t: PhosphorType, delay: int, m: nat) -> Seq<
    StepView,
>
    decreases m,
{
    if m == 0 {
        seq![]
    } else {
        typed(text, x, y, t, delay, (m - 1) as nat) + char_glow(text, x, y, t, delay, m - 1)
    }
}

/// Redraws of the last `k` characters in one colour, from the final
/// character back.
pub open spec fn tail_fade(text: Seq<char>, x: int, y: int, color: Color, k: nat) -> Seq<StepView>
    decreases k,
{
    if k == 0 {
        seq![]
    } else {
        let j = text.len() - k;
        tail_fade(text, x, y, color, (k - 1) as nat) + seq![draw(seq![text[j]], x + j, y, color, 0)]
    }
}

/// The number of trailing characters that fade out after typing ends.
pub open spec fn tail_len(n: nat) -> nat {
    if n < 3 {
        n
    } else {
        3
    }
}

/// The whole progressive glow: typing, then the last characters fade
/// through medium and dim, then the line settles in white.
pub open spec fn typing_spec(text: Seq<char>, x: int, y: int, t: PhosphorType, delay: int) -> Seq<
    StepView,
> {
    typed(text, x, y, t, delay, text.len()) + seq![StepView::Pause(delay)] + tail_fade(
        text,
        x,
        y,
        ramp(t).1,
        tail_len(text.len()),
    ) + seq![StepView::Pause(delay)] + tail_fade(text, x, y, ramp(t).2, tail_len(text.len()))
        + seq![StepView::Pause(delay), draw(text, x, y, Color::White, 0), StepView::NewLine]
}

/// A single-character pass.
fn glyph(c: char, col: u16, row: u16, color: Color) -> (r: Step)
    ensures
        r@ == draw(seq![c], col as int, row as int, color, 0),
{
    let text = vec![c];
    assert(text@ =~= seq![c]);
    Step::Draw(Pass { text, col, row, color, hold_ms: 0 })
}

/// Redraws the last `k` characters of `chars` (placed at column `x`) in one
/// colour, from the final character back.
fn emit_tail_fade(plan: &mut Vec<Step>, chars: &Vec<char>, x: u16, y: u16, color: Color, k: usize)
    requires
        k <= chars@.len(),
        x + chars@.len() <= u16::MAX,
    ensures
        steps_view(final(plan)@) == steps_view(old(plan)@) + tail_fade(
            chars@,
            x as int,
            y as int,
            color,
            k as nat,
        ),
{
    let ghost start = steps_view(plan@);
    let n = chars.len();
    let mut done: usize = 0;
    assert(start + tail_fade(chars@, x as int, y as int, color, 0) =~= start);
    while done < k
        invariant
            n == chars@.len(),
            done <= k <= n,
            x + n <= u16::MAX,
            steps_view(plan@) == start + tail_fade(chars@, x as int, y as int, color, done as nat),
        decreases k - done,
    {
        let j = n - 1 - done;
        emit(plan, glyph(chars[j], x + j as u16, y, color));
        done += 1;
        assert(steps_view(plan@) =~= start + tail_fade(chars@, x as int, y as int, color, done as nat));
    }
}

/// The steps that type `text` at (`x`, `y`) one character at a time with a
/// trailing phosphor glow, fade its last characters out and settle it in
/// white.
pub fn typing_steps(text: &str, x: u16, y: u16, phosphor_type: PhosphorType, char_delay_ms: u64) -> (r:
    Vec<Step>)
    requires
        x + text@.len() <= u16::MAX,
    ensures
        steps_view(r@) == typing_spec(text@, x as int, y as int, phosphor_type, char_delay_ms as int),
{
    let chars = chars_of(text);
    typing_steps_of(&chars, x, y, phosphor_type, char_delay_ms)
}

/// [`typing_steps`] on a line given as characters.
pub fn typing_steps_of(chars: &Vec<char>, x: u16, y: u16, phosphor_type: PhosphorType, char_delay_ms: u64) -> (r:
    Vec<Step>)
    requires
        x + chars@.len() <= u16::MAX,
    ensures
        steps_view(r@) == typing_spec(chars@, x as int, y as int, phosphor_type, char_delay_ms as int),
{
    let ghost text = chars@;
    let ghost (gx, gy, gd) = (x as int, y as int, char_delay_ms as int);
    let (bright, medium, dim) = get_phosphor_colors(phosphor_type);
    let n = chars.len();
    let mut plan: Vec<Step> = Vec::new();
    let mut i: usize = 0;
    while i < n
        invariant
            n == text.len(),
            text == chars@,
            gx == x,
            gy == y,
            gd == char_delay_ms,
            (bright, medium, dim) == ramp(phosphor_type),
            i <= n,
            x + n <= u16::MAX,
            steps_view(plan@) == typed(text, gx, gy, phosphor_type, gd, i as nat),
        decreases n - i,
    {
        let ghost before = steps_view(plan@);
        let col = x + i as u16;
        emit(&mut plan, glyph(chars[i], col, y, bright));
        if i >= 1 {
            emit(&mut plan, glyph(chars[i - 1], col - 1, y, medium));
        }
        if i >= 2 {
            emit(&mut plan, glyph(chars[i - 2], col - 2, y, dim));
        }
        if i >= 3 {
            emit(&mut plan, glyph(chars[i - 3], col - 3, y, Color::White));
        }
        emit(&mut plan, Step::Pause(char_delay_ms));
        assert(steps_view(plan@) =~= before + char_glow(text, gx, gy, phosphor_type, gd, i as int));
        i += 1;
    }
    emit(&mut plan, Step::Pause(char_delay_ms));
    let k: usize = if n < 3 {
        n
    } else {
        3
    };
    emit_tail_fade(&mut plan, chars, x, y, medium, k);
    emit(&mut plan, Step::Pause(char_delay_ms));
    emit_tail_fade(&mut plan, chars, x, y, dim, k);
    emit(&mut plan, Step::Pause(char_delay_ms));
    emit(&mut plan, Step::Draw(Pass { text: chars.clone(), col: x, row: y, color: Color::White, hold_ms: 0 }));
    emit(&mut plan, Step::NewLine);
    assert(steps_view(plan@) =~= typing_spec(text, gx, gy, phosphor_type, gd));
    plan
}

/// The colour of a typed character `age` positions behind the newest one.
pub open spec fn trail_shade(t: PhosphorType, age: int) -> Color {
    if age == 0 {
        ramp(t).0
    } else if age == 1 {
        ramp(t).1
    } else if age == 2 {
        ramp(t).2
    } else {
        Color::White
    }
}

proof fn lemma_char_glow_shade(text: Seq<char>, x: int, y: int, t: PhosphorType, delay: int, i: int, j: int)
    requires
        0 <= i < text.len(),
    ensures
        shade_of(char_glow(text, x, y, t, delay, i), x + j, y) == if 0 <= i - j <= 3 && j >= 0 {
            Some(trail_shade(t, i - j))
        } else {
            None
        },
{
    let c = x + j;
    let s0 = seq![draw(seq![text[i]], x + i, y, ramp(t).0, 0)];
    let s1: Seq<StepView> = if i >= 1 {
        seq![draw(seq![text[i - 1]], x + i - 1, y, ramp(t).1, 0)]
    } else {
        seq![]
    };
    let s2: Seq<StepView> = if i >= 2 {
        seq![draw(seq![text[i - 2]], x + i - 2, y, ramp(t).2, 0)]
    } else {
        seq![]
    };
    let s3: Seq<StepView> = if i >= 3 {
        seq![draw(seq![text[i - 3]], x + i - 3, y, Color::White, 0)]
    } else {
        seq![]
    };
    let s4 = seq![StepView::Pause(delay)];
    lemma_shade_single(s0[0], c, y);
    if i >= 1 {
        lemma_shade_single(s1[0], c, y);
    } else {
        assert(shade_of(s1, c, y) is None);
    }
    if i >= 2 {
        lemma_shade_single(s2[0], c, y);
    } else {
        assert(shade_of(s2, c, y) is None);
    }
    if i >= 3 {
        lemma_shade_single(s3[0], c, y);
    } else {
        assert(shade_of(s3, c, y) is None);
    }
    lemma_shade_single(s4[0], c, y);
    lemma_shade_concat(s0, s1, c, y);
    lemma_shade_concat(s0 + s1, s2, c, y);
    lemma_shade_concat(s0 + s1 + s2, s3, c, y);
    lemma_shade_concat(s0 + s1 + s2 + s3, s4, c, y);
}

/// While a line is being typed, right after character `i` appears it glows
/// bright, character `i - 1` medium, character `i - 2` dim, and every earlier
/// character is back to white.
pub proof fn lemma_trailing_glow(text: Seq<char>, x: int, y: int, t: PhosphorType, delay: int, i: int, j: int)
    requires
        0 <= j <= i < text.len(),
    ensures
        shade_of(typed(text, x, y, t, delay, (i + 1) as nat), x + j, y) == Some(trail_shade(t, i - j)),
    decreases i,
{
    let prev = typed(text, x, y, t, delay, i as nat);
    assert(typed(text, x, y, t, delay, (i + 1) as nat) == prev + char_glow(text, x, y, t, delay, i));
    lemma_shade_concat(prev, char_glow(text, x, y, t, delay, i), x + j, y);
    lemma_char_glow_shade(text, x, y, t, delay, i, j);
    if i - j > 3 {
        lemma_trailing_glow(text, x, y, t, delay, i - 1, j);
    }
}

/// Once the progressive glow has run to the end, every character of the
/// line is settled in white.
pub proof fn lemma_typing_settles(text: Seq<char>, x: int, y: int, t: PhosphorType, delay: int, j: int)
    requires
        0 <= j < text.len(),
    ensures
        shade_of(typing_spec(text, x, y, t, delay), x + j, y) == Some(Color::White),
{
    let n = text.len();
    let body = typed(text, x, y, t, delay, n) + seq![StepView::Pause(delay)] + tail_fade(
        text,
        x,
        y,
        ramp(t).1,
        tail_len(n),
    ) + seq![StepView::Pause(delay)] + tail_fade(text, x, y, ramp(t).2, tail_len(n));
    let settle = draw(text, x, y, Color::White, 0);
    let tail = seq![StepView::Pause(delay), settle, StepView::NewLine];
    assert(typing_spec(text, x, y, t, delay) == body + tail);
    lemma_shade_single(StepView::Pause(delay), x + j, y);
    lemma_shade_single(settle, x + j, y);
    lemma_shade_single(StepView::NewLine, x + j, y);
    assert(tail == seq![StepView::Pause(delay)] + seq![settle] + seq![StepView::NewLine]);
    lemma_shade_concat(seq![StepView::Pause(delay)], seq![settle], x + j, y);
    lemma_shade_concat(seq![StepView::Pause(delay)] + seq![settle], seq![StepView::NewLine], x + j, y);
    lemma_shade_concat(body, tail, x + j, y);
}

} // verus!
