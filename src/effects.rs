//! Screen disturbances: static noise, scan lines, flicker, burn-in and the
//! power-on sweep.

use vstd::prelude::*;
use crate::chance::{random_below, random_ratio};
use crate::phosphor::{get_phosphor_colors, ramp, PhosphorType};
use crate::render::{chars_of, draw, emit, steps_view, Color, Pass, Step, StepView};
use crate::sound::Cue;

verus! {

/// The random choices behind one cell of static noise: its offset inside the
/// region, its glyph and its brightness roll.
#[derive(Clone, Copy, Debug, PartialEq, Eq, Structural)]
pub struct NoiseRoll {
    pub dx: u16,
    pub dy: u16,
    pub glyph: u8,
    pub level: u8,
}

/// The glyph of a noise cell.
pub open spec fn noise_glyph(g: int) -> char {
    let k = g % 6;
    if k == 0 {
        '\u{00B7}'
    } else if k == 1 {
        ':'
    } else if k == 2 {
        '\u{00B7}'
    } else if k == 3 {
        '`'
    } else if k == 4 {
        '.'
    } else {
        ' '
    }
}

fn noise_glyph_of(g: u8) -> (r: char)
    ensures
        r == noise_glyph(g as int),
{
    let k = g % 6;
    if k == 0 {
        '\u{00B7}'
    } else if k == 1 {
        ':'
    } else if k == 2 {
        '\u{00B7}'
    } else if k == 3 {
        '`'
    } else if k == 4 {
        '.'
    } else {
        ' '
    }
}

/// The brightness of a noise cell from a roll in 0..10: bright for three
/// values, medium for four, dim for three.
pub open spec fn noise_shade(t: PhosphorType, level: int) -> Color {
    if level <= 2 {
        ramp(t).0
    } else if level <= 6 {
        ramp(t).1
    } else {
        ramp(t).2
    }
}

/// The draw of one noise cell in the region at (`x`, `y`) of size `w` by `h`.
pub open spec fn noise_pass(x: int, y: int, w: int, h: int, t: PhosphorType, r: NoiseRoll) -> StepView {
    draw(
        seq![noise_glyph(r.glyph as int)],
        x + (r.dx as int) % w,
        y + (r.dy as int) % h,
        noise_shade(t, r.level as int),
        0,
    )
}

/// Noise over a region: the cursor is saved, one cell is drawn per roll
/// (none when the region is empty), and the cursor is restored.
pub open spec fn noise_spec(x: int, y: int, w: int, h: int, t: PhosphorType, rolls: Seq<NoiseRoll>) -> Seq<
    StepView,
> {
    if w == 0 || h == 0 {
        seq![StepView::SaveCursor, StepView::RestoreCursor]
    } else {
        seq![StepView::SaveCursor] + rolls.map_values(|r: NoiseRoll| noise_pass(x, y, w, h, t, r))
            + seq![StepView::RestoreCursor]
    }
}

/// The number of noise cells for a region of `w` by `h` at an intensity of
/// `permille` thousandths: the floor of `w * h * permille / 1000`.
pub open spec fn noise_count(w: int, h: int, permille: int) -> int {
    (w * h * permille) / 1000
}

/// Whether a roll lies in the ranges its draws come from.
pub open spec fn noise_roll_ok(r: NoiseRoll, w: int, h: int) -> bool {
    r.dx < w && r.dy < h && r.glyph < 6 && r.level < 10
}

/// The steps that draw static noise in the region at (`x`, `y`) of size
/// `w` by `h`, one cell per roll.
pub fn noise_steps(x: u16, y: u16, w: u16, h: u16, phosphor_type: PhosphorType, rolls: &Vec<NoiseRoll>) -> (r:
    Vec<Step>)
    requires
        x + w <= 65536,
        y + h <= 65536,
    ensures
        steps_view(r@) == noise_spec(x as int, y as int, w as int, h as int, phosphor_type, rolls@),
{
    let ghost (gx, gy, gw, gh) = (x as int, y as int, w as int, h as int);
    let (bright, medium, dim) = get_phosphor_colors(phosphor_type);
    let mut plan: Vec<Step> = Vec::new();
    emit(&mut plan, Step::SaveCursor);
    if w > 0 && h > 0 {
        let mut k: usize = 0;
        while k < rolls.len()
            invariant
                w > 0,
                h > 0,
                x + w <= 65536,
                y + h <= 65536,
                gx == x && gy == y && gw == w && gh == h,
                (bright, medium, dim) == ramp(phosphor_type),
                k <= rolls@.len(),
                steps_view(plan@) == seq![StepView::SaveCursor] + rolls@.take(k as int).map_values(
                    |r: NoiseRoll| noise_pass(gx, gy, gw, gh, phosphor_type, r),
                ),
            decreases rolls@.len() - k,
        {
            let roll = rolls[k];
            let color = if roll.level <= 2 {
                bright
            } else if roll.level <= 6 {
                medium
            } else {
                dim
            };
            let c = noise_glyph_of(roll.glyph);
            let text = vec![c];
            assert(text@ =~= seq![c]);
            emit(&mut plan, Step::Draw(Pass { text, col: x + roll.dx % w, row: y + roll.dy % h, color, hold_ms: 0 }));
            assert(rolls@.take(k + 1) =~= rolls@.take(k as int).push(roll));
            assert(rolls@.take(k + 1).map_values(|r: NoiseRoll| noise_pass(gx, gy, gw, gh, phosphor_type, r))
                =~= rolls@.take(k as int).map_values(
                |r: NoiseRoll| noise_pass(gx, gy, gw, gh, phosphor_type, r),
            ).push(noise_pass(gx, gy, gw, gh, phosphor_type, roll)));
            k += 1;
        }
        assert(rolls@.take(rolls@.len() as int) =~= rolls@);
    }
    emit(&mut plan, Step::RestoreCursor);
    assert(steps_view(plan@) =~= noise_spec(gx, gy, gw, gh, phosphor_type, rolls@));
    plan
}

/// The number of noise cells for a region and intensity.
pub fn noise_count_of(w: u16, h: u16, intensity_permille: u16) -> (r: u64)
    requires
        intensity_permille <= 1000,
    ensures
        r == noise_count(w as int, h as int, intensity_permille as int),
{
    assert((w as int) * (h as int) <= 65535 * 65535) by (nonlinear_arith)
        requires
            w <= 65535,
            h <= 65535,
    ;
    let area = (w as u64) * (h as u64);
    assert(area * (intensity_permille as u64) <= 65535 * 65535 * 1000) by (nonlinear_arith)
        requires
            area <= 65535 * 65535,
            intensity_permille <= 1000,
    ;
    area * (intensity_permille as u64) / 1000
}

/// Draws the rolls for noise over a region of `w` by `h`: exactly as many as
/// the intensity asks for, each inside the region.
pub fn roll_noise(w: u16, h: u16, intensity_permille: u16) -> (r: Vec<NoiseRoll>)
    requires
        intensity_permille <= 1000,
    ensures
        r@.len() == noise_count(w as int, h as int, intensity_permille as int),
        forall|k: int| 0 <= k < r@.len() ==> noise_roll_ok(#[trigger] r@[k], w as int, h as int),
{
    let count = noise_count_of(w, h, intensity_permille);
    let mut rolls: Vec<NoiseRoll> = Vec::new();
    if w == 0 || h == 0 {
        assert(count == 0) by (nonlinear_arith)
            requires
                w == 0 || h == 0,
                count == (w * h * intensity_permille) / 1000,
        ;
        return rolls;
    }
    let mut k: u64 = 0;
    while k < count
        invariant
            w > 0,
            h > 0,
            k <= count,
            rolls@.len() == k,
            forall|j: int| 0 <= j < rolls@.len() ==> noise_roll_ok(#[trigger] rolls@[j], w as int, h as int),
        decreases count - k,
    {
        let dx = random_below(w as u32) as u16;
        let dy = random_below(h as u32) as u16;
        let glyph = random_below(6) as u8;
        let level = random_below(10) as u8;
        rolls.push(NoiseRoll { dx, dy, glyph, level });
        k += 1;
    }
    rolls
}

/// Whether a character is one of the noise glyphs.
pub open spec fn is_noise_glyph(c: char) -> bool {
    c == '\u{00B7}' || c == ':' || c == '`' || c == '.' || c == ' '
}

/// Whether a colour is one of the three of a scheme's ramp.
pub open spec fn in_ramp(t: PhosphorType, c: Color) -> bool {
    c == ramp(t).0 || c == ramp(t).1 || c == ramp(t).2
}

/// Whether a plan is noise over the region at (`x`, `y`) of size `w` by `h`
/// at the given intensity: the cursor is saved, exactly
/// `noise_count(w, h, permille)` single cells inside the region are drawn,
/// each with a noise glyph in one of the ramp's colours, and the cursor is
/// restored.
pub open spec fn is_noise(
    s: Seq<StepView>,
    x: int,
    y: int,
    w: int,
    h: int,
    t: PhosphorType,
    permille: int,
) -> bool {
    &&& s.len() == noise_count(w, h, permille) + 2
    &&& s[0] == StepView::SaveCursor
    &&& s.last() == StepView::RestoreCursor
    &&& forall|k: int|
        1 <= k <= noise_count(w, h, permille) ==> (#[trigger] s[k] matches StepView::Draw(p) && x
            <= p.col < x + w && y <= p.row < y + h && p.text.len() == 1 && is_noise_glyph(p.text[0])
            && in_ramp(t, p.color))
}

/// Random static noise over the region at (`x`, `y`) of size `w` by `h`.
pub fn phosphor_noise(
    x: u16,
    y: u16,
    w: u16,
    h: u16,
    phosphor_type: PhosphorType,
    intensity_permille: u16,
) -> (r: Vec<Step>)
    requires
        x + w <= 65536,
        y + h <= 65536,
        intensity_permille <= 1000,
    ensures
        is_noise(
            steps_view(r@),
            x as int,
            y as int,
            w as int,
            h as int,
            phosphor_type,
            intensity_permille as int,
        ),
{
    let rolls = roll_noise(w, h, intensity_permille);
    let r = noise_steps(x, y, w, h, phosphor_type, &rolls);
    proof {
        let n = noise_count(w as int, h as int, intensity_permille as int);
        if w == 0 || h == 0 {
            assert(n == 0) by (nonlinear_arith)
                requires
                    w == 0 || h == 0,
                    n == (w * h * intensity_permille) / 1000,
            ;
        } else {
            let s = steps_view(r@);
            assert forall|k: int| 1 <= k <= n implies (#[trigger] s[k] matches StepView::Draw(p) && x
                <= p.col < x + w && y <= p.row < y + h && p.text.len() == 1 && is_noise_glyph(
                p.text[0],
            ) && in_ramp(phosphor_type, p.color)) by {
                let roll = rolls@[k - 1];
                assert(s[k] == noise_pass(x as int, y as int, w as int, h as int, phosphor_type, roll));
                assert(seq![noise_glyph(roll.glyph as int)][0] == noise_glyph(roll.glyph as int));
            }
        }
    }
    r
}

/// The rolls for noise behind a gate: a full set when it fires, none when
/// it does not.
pub fn noise_gate(fire: bool, w: u16, h: u16, intensity_permille: u16) -> (r: Vec<NoiseRoll>)
    requires
        intensity_permille <= 1000,
    ensures
        fire ==> r@.len() == noise_count(w as int, h as int, intensity_permille as int),
        !fire ==> r@.len() == 0,
        forall|k: int| 0 <= k < r@.len() ==> noise_roll_ok(#[trigger] r@[k], w as int, h as int),
{
    if fire {
        roll_noise(w, h, intensity_permille)
    } else {
        Vec::new()
    }
}

/// Draws the rolls for noise that shows with a chance of `percent` in 100:
/// none when it does not show.
pub fn maybe_roll_noise(percent: u32, w: u16, h: u16, intensity_permille: u16) -> (r: Vec<NoiseRoll>)
    requires
        percent <= 100,
        intensity_permille <= 1000,
    ensures
        r@.len() == 0 || r@.len() == noise_count(w as int, h as int, intensity_permille as int),
        percent == 0 ==> r@.len() == 0,
        percent == 100 ==> r@.len() == noise_count(w as int, h as int, intensity_permille as int),
        forall|k: int| 0 <= k < r@.len() ==> noise_roll_ok(#[trigger] r@[k], w as int, h as int),
{
    noise_gate(random_ratio(percent, 100), w, h, intensity_permille)
}

/// `n` copies of a character.
pub fn repeat_char(c: char, n: u16) -> (r: Vec<char>)
    ensures
        r@ == Seq::new(n as nat, |_i: int| c),
{
    let mut r: Vec<char> = Vec::new();
    let mut i: u16 = 0;
    while i < n
        invariant
            i <= n,
            r@ == Seq::new(i as nat, |_i: int| c),
        decreases n - i,
    {
        r.push(c);
        i += 1;
        assert(r@ =~= Seq::new(i as nat, |_i: int| c));
    }
    r
}

/// The first `k` scan lines: full-width light-shade rows on rows 0, 2, 4, ...
/// in the dim colour.
pub open spec fn scan_rows(cols: int, t: PhosphorType, k: nat) -> Seq<StepView>
    decreases k,
{
    if k == 0 {
        seq![]
    } else {
        scan_rows(cols, t, (k - 1) as nat).push(
            draw(Seq::new(cols as nat, |_i: int| '\u{2591}'), 0, 2 * (k - 1), ramp(t).2, 0),
        )
    }
}

/// The scan-line overlay of a `cols` by `rows` screen: one line on every
/// even row, with the cursor saved before and restored after.
pub open spec fn scan_spec(cols: int, rows: int, t: PhosphorType) -> Seq<StepView> {
    seq![StepView::SaveCursor] + scan_rows(cols, t, ((rows + 1) / 2) as nat) + seq![
        StepView::RestoreCursor,
    ]
}

/// The steps of the scan-line overlay on a `cols` by `rows` screen.
pub fn scan_line_steps(cols: u16, rows: u16, phosphor_type: PhosphorType) -> (r: Vec<Step>)
    ensures
        steps_view(r@) == scan_spec(cols as int, rows as int, phosphor_type),
{
    let (_, _, dim) = get_phosphor_colors(phosphor_type);
    let line = repeat_char('\u{2591}', cols);
    let mut plan: Vec<Step> = Vec::new();
    emit(&mut plan, Step::SaveCursor);
    let mut k: u32 = 0;
    let mut y: u32 = 0;
    while y < rows as u32
        invariant
            y == 2 * k,
            y <= rows + 1,
            dim == ramp(phosphor_type).2,
            line@ == Seq::new(cols as nat, |_i: int| '\u{2591}'),
            steps_view(plan@) == seq![StepView::SaveCursor] + scan_rows(cols as int, phosphor_type, k as nat),
        decreases rows + 1 - y,
    {
        emit(&mut plan, Step::Draw(Pass { text: line.clone(), col: 0, row: y as u16, color: dim, hold_ms: 0 }));
        k += 1;
        y += 2;
        assert(steps_view(plan@) =~= seq![StepView::SaveCursor] + scan_rows(cols as int, phosphor_type, k as nat));
    }
    emit(&mut plan, Step::RestoreCursor);
    assert(k == (rows + 1) / 2);
    assert(steps_view(plan@) =~= scan_spec(cols as int, rows as int, phosphor_type));
    plan
}

/// The steps of faint burn-in text at (`x`, `y`): drawn once in the dim
/// colour with the cursor saved and restored.
pub fn burn_in_steps(text: &str, x: u16, y: u16, phosphor_type: PhosphorType) -> (r: Vec<Step>)
    ensures
        steps_view(r@) == seq![
            StepView::SaveCursor,
            draw(text@, x as int, y as int, ramp(phosphor_type).2, 0),
            StepView::RestoreCursor,
        ],
{
    let (_, _, dim) = get_phosphor_colors(phosphor_type);
    let mut plan: Vec<Step> = Vec::new();
    emit(&mut plan, Step::SaveCursor);
    emit(&mut plan, Step::Draw(Pass { text: chars_of(text), col: x, row: y, color: dim, hold_ms: 0 }));
    emit(&mut plan, Step::RestoreCursor);
    assert(steps_view(plan@) =~= seq![
        StepView::SaveCursor,
        draw(text@, x as int, y as int, ramp(phosphor_type).2, 0),
        StepView::RestoreCursor,
    ]);
    plan
}

/// The first `k` cells of a horizontal double line on `row`, one per
/// column, each held for a millisecond.
pub open spec fn sweep_line(row: int, color: Color, k: nat) -> Seq<StepView>
    decreases k,
{
    if k == 0 {
        seq![]
    } else {
        sweep_line(row, color, (k - 1) as nat).push(draw(seq!['\u{2550}'], k - 1, row, color, 1))
    }
}

/// The first `k` rows painted blank across `cols` columns, each held for
/// five milliseconds.
pub open spec fn blank_rows(cols: int, color: Color, k: nat) -> Seq<StepView>
    decreases k,
{
    if k == 0 {
        seq![]
    } else {
        blank_rows(cols, color, (k - 1) as nat).push(
            draw(Seq::new(cols as nat, |_i: int| ' '), 0, k - 1, color, 5),
        )
    }
}

/// The first `k` cells of column `x` painted blank, top to bottom, each
/// held for a millisecond.
pub open spec fn column_cells(x: int, color: Color, k: nat) -> Seq<StepView>
    decreases k,
{
    if k == 0 {
        seq![]
    } else {
        column_cells(x, color, (k - 1) as nat).push(draw(seq![' '], x, k - 1, color, 1))
    }
}

/// The first `k` columns of a `rows`-high screen painted blank, left to
/// right.
pub open spec fn blank_columns(rows: int, color: Color, k: nat) -> Seq<StepView>
    decreases k,
{
    if k == 0 {
        seq![]
    } else {
        blank_columns(rows, color, (k - 1) as nat) + column_cells(k - 1, color, rows as nat)
    }
}

/// The power-on choreography of a `cols` by `rows` screen: clear; a bright
/// double line sweeps across the middle row, a millisecond per column; a
/// 100 ms pause; every row is swept dim top to bottom, 5 ms per row; every
/// cell is swept medium, column by column left to right, a millisecond per
/// cell; clear.
pub open spec fn power_on_spec(cols: int, rows: int, t: PhosphorType) -> Seq<StepView> {
    seq![StepView::Clear] + sweep_line(rows / 2, ramp(t).0, cols as nat) + seq![StepView::Pause(100)]
        + blank_rows(cols, ramp(t).2, rows as nat) + blank_columns(rows, ramp(t).1, cols as nat)
        + seq![StepView::Clear]
}

fn emit_column(plan: &mut Vec<Step>, x: u16, rows: u16, color: Color)
    ensures
        steps_view(final(plan)@) == steps_view(old(plan)@) + column_cells(x as int, color, rows as nat),
{
    let ghost start = steps_view(plan@);
    let mut y: u16 = 0;
    assert(start + column_cells(x as int, color, 0) =~= start);
    while y < rows
        invariant
            y <= rows,
            steps_view(plan@) == start + column_cells(x as int, color, y as nat),
        decreases rows - y,
    {
        let text = vec![' '];
        assert(text@ =~= seq![' ']);
        emit(plan, Step::Draw(Pass { text, col: x, row: y, color, hold_ms: 1 }));
        y += 1;
        assert(steps_view(plan@) =~= start + column_cells(x as int, color, y as nat));
    }
}

/// The steps of the power-on sweep on a `cols` by `rows` screen.
pub fn power_on_steps(cols: u16, rows: u16, phosphor_type: PhosphorType) -> (r: Vec<Step>)
    ensures
        steps_view(r@) == power_on_spec(cols as int, rows as int, phosphor_type),
{
    let (bright, medium, dim) = get_phosphor_colors(phosphor_type);
    let mid = rows / 2;
    let mut plan: Vec<Step> = Vec::new();
    emit(&mut plan, Step::Clear);
    let ghost head = steps_view(plan@);
    let mut x: u16 = 0;
    assert(head + sweep_line(mid as int, bright, 0) =~= head);
    while x < cols
        invariant
            x <= cols,
            steps_view(plan@) == head + sweep_line(mid as int, bright, x as nat),
        decreases cols - x,
    {
        let text = vec!['\u{2550}'];
        assert(text@ =~= seq!['\u{2550}']);
        emit(&mut plan, Step::Draw(Pass { text, col: x, row: mid, color: bright, hold_ms: 1 }));
        x += 1;
        assert(steps_view(plan@) =~= head + sweep_line(mid as int, bright, x as nat));
    }
    emit(&mut plan, Step::Pause(100));
    let ghost mid_plan = steps_view(plan@);
    let blanks = repeat_char(' ', cols);
    let mut y: u16 = 0;
    assert(mid_plan + blank_rows(cols as int, dim, 0) =~= mid_plan);
    while y < rows
        invariant
            y <= rows,
            blanks@ == Seq::new(cols as nat, |_i: int| ' '),
            steps_view(plan@) == mid_plan + blank_rows(cols as int, dim, y as nat),
        decreases rows - y,
    {
        emit(&mut plan, Step::Draw(Pass { text: blanks.clone(), col: 0, row: y, color: dim, hold_ms: 5 }));
        y += 1;
        assert(steps_view(plan@) =~= mid_plan + blank_rows(cols as int, dim, y as nat));
    }
    let ghost late_plan = steps_view(plan@);
    let mut x: u16 = 0;
    assert(late_plan + blank_columns(rows as int, medium, 0) =~= late_plan);
    while x < cols
        invariant
            x <= cols,
            steps_view(plan@) == late_plan + blank_columns(rows as int, medium, x as nat),
        decreases cols - x,
    {
        emit_column(&mut plan, x, rows, medium);
        x += 1;
        assert(steps_view(plan@) =~= late_plan + blank_columns(rows as int, medium, x as nat));
    }
    emit(&mut plan, Step::Clear);
    assert(steps_view(plan@) =~= power_on_spec(cols as int, rows as int, phosphor_type));
    plan
}

/// The random choices behind one flickering cell: its position and glyph.
#[derive(Clone, Copy, Debug, PartialEq, Eq, Structural)]
pub struct FlickerRoll {
    pub x: u16,
    pub y: u16,
    pub glyph: u8,
}

/// The block glyph of a flickering cell, from solid to light shade.
pub open spec fn flicker_glyph(g: int) -> char {
    if g == 0 {
        '\u{2588}'
    } else if g == 1 {
        '\u{2593}'
    } else if g == 2 {
        '\u{2592}'
    } else {
        '\u{2591}'
    }
}

fn flicker_glyph_of(g: u8) -> (r: char)
    ensures
        r == flicker_glyph(g as int),
{
    if g == 0 {
        '\u{2588}'
    } else if g == 1 {
        '\u{2593}'
    } else if g == 2 {
        '\u{2592}'
    } else {
        '\u{2591}'
    }
}

/// The draw of one flickering cell on a `cols` by `rows` screen.
pub open spec fn flicker_pass(cols: int, rows: int, r: FlickerRoll) -> StepView {
    draw(seq![flicker_glyph(r.glyph as int)], (r.x as int) % cols, (r.y as int) % rows, Color::White, 0)
}

/// A light flicker: an optional flicker cue, one white block glyph per roll
/// (none on an empty screen), then a 50 ms hold. The caller redraws what
/// the glyphs covered if it must survive.
pub open spec fn flicker_spec(cols: int, rows: int, with_sound: bool, rolls: Seq<FlickerRoll>) -> Seq<
    StepView,
> {
    (if with_sound {
        seq![StepView::Play(Cue::Flicker)]
    } else {
        seq![]
    }) + (if cols == 0 || rows == 0 {
        seq![]
    } else {
        rolls.map_values(|r: FlickerRoll| flicker_pass(cols, rows, r))
    }) + seq![StepView::Pause(50)]
}

/// The steps of a light flicker from given rolls.
pub fn flicker_steps(cols: u16, rows: u16, with_sound: bool, rolls: &Vec<FlickerRoll>) -> (r: Vec<Step>)
    ensures
        steps_view(r@) == flicker_spec(cols as int, rows as int, with_sound, rolls@),
{
    let ghost (gc, gr) = (cols as int, rows as int);
    let mut plan: Vec<Step> = Vec::new();
    if with_sound {
        emit(&mut plan, Step::Play(Cue::Flicker));
    }
    let ghost head = steps_view(plan@);
    if cols > 0 && rows > 0 {
        let mut k: usize = 0;
        while k < rolls.len()
            invariant
                cols > 0 && rows > 0,
                gc == cols && gr == rows,
                k <= rolls@.len(),
                steps_view(plan@) == head + rolls@.take(k as int).map_values(
                    |r: FlickerRoll| flicker_pass(gc, gr, r),
                ),
            decreases rolls@.len() - k,
        {
            let roll = rolls[k];
            let text = vec![flicker_glyph_of(roll.glyph)];
            assert(text@ =~= seq![flicker_glyph(roll.glyph as int)]);
            emit(&mut plan, Step::Draw(Pass { text, col: roll.x % cols, row: roll.y % rows, color: Color::White, hold_ms: 0 }));
            assert(rolls@.take(k + 1) =~= rolls@.take(k as int).push(roll));
            assert(rolls@.take(k + 1).map_values(|r: FlickerRoll| flicker_pass(gc, gr, r)) =~= rolls@.take(
                k as int,
            ).map_values(|r: FlickerRoll| flicker_pass(gc, gr, r)).push(flicker_pass(gc, gr, roll)));
            k += 1;
        }
        assert(rolls@.take(rolls@.len() as int) =~= rolls@);
    }
    emit(&mut plan, Step::Pause(50));
    assert(steps_view(plan@) =~= flicker_spec(gc, gr, with_sound, rolls@));
    plan
}

/// Whether a plan is a light flicker of 3 to 9 rolled cells on a `cols` by
/// `rows` screen, each cell on the screen.
pub open spec fn is_light_flicker(s: Seq<StepView>, cols: int, rows: int) -> bool {
    exists|with_sound: bool, rolls: Seq<FlickerRoll>|
        {
            &&& 3 <= rolls.len() <= 9
            &&& forall|k: int|
                0 <= k < rolls.len() ==> (cols > 0 ==> (#[trigger] rolls[k]).x < cols) && (rows
                    > 0 ==> rolls[k].y < rows) && rolls[k].glyph < 4
            &&& s == flicker_spec(cols, rows, with_sound, rolls)
        }
}

/// A light flicker with random cells: with a chance of 4 in 5 the flicker
/// cue plays, then 3 to 9 random cells flash a random block glyph.
pub fn light_flicker(cols: u16, rows: u16) -> (r: Vec<Step>)
    ensures
        is_light_flicker(steps_view(r@), cols as int, rows as int),
{
    let with_sound = random_ratio(4, 5);
    let n = 3 + random_below(7);
    let mut rolls: Vec<FlickerRoll> = Vec::new();
    let mut k: u32 = 0;
    while k < n
        invariant
            k <= n <= 9,
            rolls@.len() == k,
            forall|j: int|
                0 <= j < rolls@.len() ==> (cols > 0 ==> (#[trigger] rolls@[j]).x < cols) && (rows
                    > 0 ==> rolls@[j].y < rows) && rolls@[j].glyph < 4,
        decreases n - k,
    {
        let x = if cols > 0 {
            random_below(cols as u32) as u16
        } else {
            0
        };
        let y = if rows > 0 {
            random_below(rows as u32) as u16
        } else {
            0
        };
        let glyph = random_below(4) as u8;
        rolls.push(FlickerRoll { x, y, glyph });
        k += 1;
    }
    let r = flicker_steps(cols, rows, with_sound, &rolls);
    assert(is_light_flicker(steps_view(r@), cols as int, rows as int)) by {
        assert(3 <= rolls@.len() <= 9);
    }
    r
}

/// A light flicker if `fire` is set; no steps otherwise.
pub fn flicker_gate(fire: bool, cols: u16, rows: u16) -> (r: Vec<Step>)
    ensures
        fire ==> is_light_flicker(steps_view(r@), cols as int, rows as int),
        !fire ==> r@.len() == 0,
{
    if fire {
        light_flicker(cols, rows)
    } else {
        Vec::new()
    }
}

/// The flicker gate polled between story beats: it fires with a chance of
/// 1 in 20.
pub fn random_flicker_check(cols: u16, rows: u16) -> (r: Vec<Step>)
    ensures
        r@.len() == 0 || is_light_flicker(steps_view(r@), cols as int, rows as int),
{
    flicker_gate(random_ratio(1, 20), cols, rows)
}

/// The flicker gate firing with a chance of `percent` in 100.
pub fn flicker_chance(percent: u32, cols: u16, rows: u16) -> (r: Vec<Step>)
    requires
        percent <= 100,
    ensures
        r@.len() == 0 || is_light_flicker(steps_view(r@), cols as int, rows as int),
        percent == 0 ==> r@.len() == 0,
        percent == 100 ==> is_light_flicker(steps_view(r@), cols as int, rows as int),
{
    flicker_gate(random_ratio(percent, 100), cols, rows)
}

} // verus!
