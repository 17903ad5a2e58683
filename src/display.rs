//! The narrative presentation layer: banners, narrative paragraphs, hours
//! readouts, choice prompts, dividers, errors, the epilogue and the ending
//! screen, plus the filter that turns key presses into menu digits.

use vstd::prelude::*;
use crate::clock::local_timestamp;
use crate::effects::{
    maybe_roll_noise, noise_count, noise_spec, noise_steps, repeat_char, scan_line_steps, scan_spec,
    NoiseRoll,
};
use crate::phosphor::{glow_spec, glow_steps, typing_spec, typing_steps_of, PhosphorType};
use crate::render::{chars_of, emit, emit_all, steps_view, Color, Step, StepView};
use crate::sound::Cue;
use crate::text::{
    layout_narrative, lines_view, narrative_layout, signed_decimal, signed_decimal_of,
};

verus! {

/// The column narrative text and prompts start at.
pub const INDENT: u16 = 2;

/// Narrative rows typed so far: each line typed with the progressive glow at
/// the indent, one row per line from `start`, 15 ms per character.
pub open spec fn narrative_rows(lines: Seq<Seq<char>>, t: PhosphorType, start: int, k: nat) -> Seq<
    StepView,
>
    decreases k,
{
    if k == 0 {
        seq![]
    } else {
        narrative_rows(lines, t, start, (k - 1) as nat) + typing_spec(
            lines[k - 1],
            2,
            start + k - 1,
            t,
            15,
        )
    }
}

/// The width of the noise region under a narrative: the terminal width less
/// the indent on both sides.
pub open spec fn noise_width(term_width: int) -> int {
    if term_width >= 4 {
        term_width - 4
    } else {
        0
    }
}

/// A narrative block: its lines typed on consecutive rows from `start`,
/// the cursor moved to the start of the next free row, the noise of `noise`
/// (when there is any) over the rows just written, then a 500 ms pause.
pub open spec fn narrative_spec(
    lines: Seq<Seq<char>>,
    t: PhosphorType,
    term_width: int,
    start: int,
    noise: Seq<NoiseRoll>,
) -> Seq<StepView> {
    narrative_rows(lines, t, start, lines.len()) + seq![StepView::MoveTo(0, start + lines.len())] + (
    if noise.len() > 0 {
        noise_spec(2, start, noise_width(term_width), lines.len() as int, t, noise)
    } else {
        seq![]
    }) + seq![StepView::Pause(500)]
}

/// The steps that show laid-out narrative lines from row `start_row`, with
/// optional noise over them afterwards.
pub fn narrative_steps(
    lines: &Vec<Vec<char>>,
    phosphor_type: PhosphorType,
    term_width: u16,
    start_row: u16,
    noise: &Vec<NoiseRoll>,
) -> (r: Vec<Step>)
    requires
        start_row + lines@.len() <= u16::MAX,
        forall|k: int| 0 <= k < lines@.len() ==> (#[trigger] lines@[k])@.len() + 2 <= u16::MAX,
    ensures
        steps_view(r@) == narrative_spec(
            lines_view(lines@),
            phosphor_type,
            term_width as int,
            start_row as int,
            noise@,
        ),
{
    let ghost ls = lines_view(lines@);
    let mut plan: Vec<Step> = Vec::new();
    let mut k: usize = 0;
    while k < lines.len()
        invariant
            ls == lines_view(lines@),
            k <= lines@.len(),
            start_row + lines@.len() <= u16::MAX,
            forall|j: int| 0 <= j < lines@.len() ==> (#[trigger] lines@[j])@.len() + 2 <= u16::MAX,
            steps_view(plan@) == narrative_rows(ls, phosphor_type, start_row as int, k as nat),
        decreases lines@.len() - k,
    {
        let more = typing_steps_of(&lines[k], INDENT, start_row + k as u16, phosphor_type, 15);
        emit_all(&mut plan, more);
        k += 1;
    }
    let n = lines.len() as u16;
    emit(&mut plan, Step::MoveTo(0, start_row + n));
    if noise.len() > 0 {
        let width = if term_width >= 4 {
            term_width - 4
        } else {
            0
        };
        emit_all(&mut plan, noise_steps(INDENT, start_row, width, n, phosphor_type, noise));
    }
    emit(&mut plan, Step::Pause(500));
    assert(steps_view(plan@) =~= narrative_spec(
        ls,
        phosphor_type,
        term_width as int,
        start_row as int,
        noise@,
    ));
    plan
}

/// The colour band of an hours readout: red up to 3, yellow from 4 to 6,
/// green from 7.
pub open spec fn hours_band(hours: int) -> Color {
    if hours <= 3 {
        Color::Red
    } else if hours <= 6 {
        Color::Yellow
    } else {
        Color::Green
    }
}

/// The colour of the "hours remain" readout.
pub fn hours_color(hours: i32) -> (r: Color)
    ensures
        r == hours_band(hours as int),
        hours <= 3 ==> r == Color::Red,
        4 <= hours <= 6 ==> r == Color::Yellow,
        hours >= 7 ==> r == Color::Green,
{
    if hours <= 3 {
        Color::Red
    } else if hours <= 6 {
        Color::Yellow
    } else {
        Color::Green
    }
}

/// The hours readout: "`hours` hours now remain." at the indent, coloured by
/// its band.
pub fn hours_steps(hours: i32) -> (r: Vec<Step>)
    ensures
        steps_view(r@) == seq![
            StepView::Column(2),
            StepView::Write(signed_decimal(hours as int) + " hours now remain."@, hours_band(hours as int)),
        ],
{
    let mut text = signed_decimal_of(hours);
    let mut tail = chars_of(" hours now remain.");
    text.append(&mut tail);
    let mut plan: Vec<Step> = Vec::new();
    emit(&mut plan, Step::Column(INDENT));
    emit(&mut plan, Step::Write(text, hours_color(hours)));
    assert(steps_view(plan@) =~= seq![
        StepView::Column(2),
        StepView::Write(signed_decimal(hours as int) + " hours now remain."@, hours_band(hours as int)),
    ]);
    plan
}

/// The first `k` choices, each on a new line, indented further than the
/// header.
pub open spec fn choice_rows(choices: Seq<Seq<char>>, k: nat) -> Seq<StepView>
    decreases k,
{
    if k == 0 {
        seq![]
    } else {
        choice_rows(choices, (k - 1) as nat) + seq![
            StepView::NewLine,
            StepView::Column(4),
            StepView::Write(choices[k - 1], Color::DarkCyan),
        ]
    }
}

/// The choice prompt: a "What next?" header, then each choice.
pub open spec fn choices_spec(choices: Seq<Seq<char>>) -> Seq<StepView> {
    seq![StepView::NewLine, StepView::Column(2), StepView::Write("What next?"@, Color::Cyan)]
        + choice_rows(choices, choices.len()) + seq![StepView::NewLine]
}

/// The steps of a choice prompt.
pub fn choices_steps(choices: &[&str]) -> (r: Vec<Step>)
    ensures
        steps_view(r@) == choices_spec(choices@.map_values(|c: &str| c@)),
{
    let ghost cs = choices@.map_values(|c: &str| c@);
    let mut plan: Vec<Step> = Vec::new();
    emit(&mut plan, Step::NewLine);
    emit(&mut plan, Step::Column(INDENT));
    emit(&mut plan, Step::Write(chars_of("What next?"), Color::Cyan));
    let ghost head = steps_view(plan@);
    let mut k: usize = 0;
    while k < choices.len()
        invariant
            cs == choices@.map_values(|c: &str| c@),
            k <= choices@.len(),
            steps_view(plan@) == head + choice_rows(cs, k as nat),
        decreases choices@.len() - k,
    {
        emit(&mut plan, Step::NewLine);
        emit(&mut plan, Step::Column(INDENT + 2));
        emit(&mut plan, Step::Write(chars_of(choices[k]), Color::DarkCyan));
        k += 1;
        assert(steps_view(plan@) =~= head + choice_rows(cs, k as nat));
    }
    emit(&mut plan, Step::NewLine);
    assert(steps_view(plan@) =~= choices_spec(cs));
    plan
}

/// The divider rule: 55 dashes and a space.
pub open spec fn divider_text() -> Seq<char> {
    Seq::new(55, |_i: int| '-').push(' ')
}

/// A divider: a blank line, the rule from column 0, then two line breaks.
pub open spec fn divider_spec() -> Seq<StepView> {
    seq![
        StepView::NewLine,
        StepView::Column(0),
        StepView::Write(divider_text(), Color::DarkBlue),
        StepView::NewLine,
        StepView::NewLine,
    ]
}

/// The steps of a divider.
pub fn divider_steps() -> (r: Vec<Step>)
    ensures
        steps_view(r@) == divider_spec(),
{
    let mut rule = repeat_char('-', 55);
    rule.push(' ');
    let mut plan: Vec<Step> = Vec::new();
    emit(&mut plan, Step::NewLine);
    emit(&mut plan, Step::Column(0));
    emit(&mut plan, Step::Write(rule, Color::DarkBlue));
    emit(&mut plan, Step::NewLine);
    emit(&mut plan, Step::NewLine);
    assert(steps_view(plan@) =~= divider_spec());
    plan
}

/// A message written at the cursor in a colour.
pub fn message_steps(message: &str, color: Color) -> (r: Vec<Step>)
    ensures
        steps_view(r@) == seq![StepView::Write(message@, color)],
{
    let mut plan: Vec<Step> = Vec::new();
    emit(&mut plan, Step::Write(chars_of(message), color));
    assert(steps_view(plan@) =~= seq![StepView::Write(message@, color)]);
    plan
}

/// An error message: the error cue, then the message in red at the indent
/// and a line break.
pub fn error_steps(message: &str) -> (r: Vec<Step>)
    ensures
        steps_view(r@) == seq![
            StepView::Play(Cue::Error),
            StepView::Column(2),
            StepView::Write(message@, Color::Red),
            StepView::NewLine,
        ],
{
    let mut plan: Vec<Step> = Vec::new();
    emit(&mut plan, Step::Play(Cue::Error));
    emit(&mut plan, Step::Column(INDENT));
    emit(&mut plan, Step::Write(chars_of(message), Color::Red));
    emit(&mut plan, Step::NewLine);
    assert(steps_view(plan@) =~= seq![
        StepView::Play(Cue::Error),
        StepView::Column(2),
        StepView::Write(message@, Color::Red),
        StepView::NewLine,
    ]);
    plan
}

/// The colour of gradient slot `k` (0 to 5), from blue through to magenta.
pub open spec fn gradient(k: int) -> Color {
    if k == 0 {
        Color::Blue
    } else if k == 1 {
        Color::Cyan
    } else if k == 2 {
        Color::Green
    } else if k == 3 {
        Color::Yellow
    } else if k == 4 {
        Color::DarkYellow
    } else {
        Color::Magenta
    }
}

/// The gradient slot of character `i` of a line of `total` characters:
/// the position scaled linearly onto the six slots.
pub open spec fn gradient_slot(i: int, total: int) -> int {
    (i * 6) / total
}

/// The gradient colour of character `i` of a line of `total` characters.
pub fn gradient_color(i: usize, total: usize) -> (r: Color)
    requires
        i < total,
    ensures
        r == gradient(gradient_slot(i as int, total as int)),
        0 <= gradient_slot(i as int, total as int) < 6,
{
    let slot = (i as u128) * 6 / (total as u128);
    assert(0 <= gradient_slot(i as int, total as int) < 6) by (nonlinear_arith)
        requires
            i < total,
    ;
    if slot == 0 {
        Color::Blue
    } else if slot == 1 {
        Color::Cyan
    } else if slot == 2 {
        Color::Green
    } else if slot == 3 {
        Color::Yellow
    } else if slot == 4 {
        Color::DarkYellow
    } else {
        Color::Magenta
    }
}

/// The total length of the first `k` lines.
pub open spec fn lines_len(ls: Seq<Seq<char>>, k: int) -> int
    decreases k,
{
    if k <= 0 {
        0
    } else {
        lines_len(ls, k - 1) + ls[k - 1].len()
    }
}

/// The number of line feeds in a text.
pub open spec fn newlines(s: Seq<char>) -> int
    decreases s.len(),
{
    if s.len() == 0 {
        0
    } else {
        newlines(s.drop_last()) + if s.last() == '\n' {
            1int
        } else {
            0int
        }
    }
}

proof fn lemma_lines_len_mono(ls: Seq<Seq<char>>, j: int, k: int)
    requires
        0 <= j <= k <= ls.len(),
    ensures
        lines_len(ls, j) <= lines_len(ls, k),
    decreases k,
{
    if j < k {
        lemma_lines_len_mono(ls, j, k - 1);
    }
}

proof fn lemma_lines_len_prefix(a: Seq<Seq<char>>, b: Seq<Seq<char>>, k: int)
    requires
        0 <= k <= a.len(),
        k <= b.len(),
        forall|i: int| 0 <= i < k ==> a[i] == b[i],
    ensures
        lines_len(a, k) == lines_len(b, k),
    decreases k,
{
    if k > 0 {
        lemma_lines_len_prefix(a, b, k - 1);
    }
}

/// The pieces of a text between its line feeds are one more than its line
/// feeds, and together hold every character that is not a line feed.
pub proof fn lemma_pieces_count(s: Seq<char>)
    ensures
        crate::text::pieces(s).len() == newlines(s) + 1,
        lines_len(crate::text::pieces(s), crate::text::pieces(s).len() as int) == s.len() - newlines(s),
    decreases s.len(),
{
    if s.len() > 0 {
        let sp = s.drop_last();
        let p = crate::text::pieces(sp);
        let n = p.len() as int;
        lemma_pieces_count(sp);
        let q = crate::text::pieces(s);
        if s.last() == '\n' {
            assert(q == p.push(seq![]));
            lemma_lines_len_prefix(q, p, n);
            assert(lines_len(q, n + 1) == lines_len(q, n) + q[n].len());
        } else {
            assert(q == p.update(n - 1, p[n - 1].push(s.last())));
            lemma_lines_len_prefix(q, p, n - 1);
            assert(lines_len(q, n) == lines_len(q, n - 1) + q[n - 1].len());
            assert(lines_len(p, n) == lines_len(p, n - 1) + p[n - 1].len());
        }
    } else {
        let q = crate::text::pieces(s);
        assert(q == seq![Seq::<char>::empty()]);
        assert(lines_len(q, 1) == lines_len(q, 0) + q[0].len());
    }
}

/// The first `k` characters of an epilogue line whose first character is
/// character `offset` of a text of `total` characters (line feeds not
/// counted), each written in its gradient colour and followed by a 30 ms
/// pause.
pub open spec fn gradient_chars(line: Seq<char>, k: nat, offset: int, total: int) -> Seq<StepView>
    decreases k,
{
    if k == 0 {
        seq![]
    } else {
        gradient_chars(line, (k - 1) as nat, offset, total) + seq![
            StepView::Write(seq![line[k - 1]], gradient(gradient_slot(offset + k - 1, total))),
            StepView::Pause(30),
        ]
    }
}

/// The first `k` epilogue lines, each at the indent, in one gradient that
/// runs across all the lines' `total` characters, then a line break.
pub open spec fn epilogue_rows(lines: Seq<Seq<char>>, k: nat, total: int) -> Seq<StepView>
    decreases k,
{
    if k == 0 {
        seq![]
    } else {
        epilogue_rows(lines, (k - 1) as nat, total) + seq![StepView::Column(2)] + gradient_chars(
            lines[k - 1],
            lines[k - 1].len(),
            lines_len(lines, k - 1),
            total,
        ) + seq![StepView::NewLine]
    }
}

/// The epilogue: a beep and a pause, the banner, each line of the text
/// (split at its line feeds) with one colour gradient running over all the
/// text's characters but the line feeds, then the closing message.
pub open spec fn epilogue_spec(text: Seq<char>) -> Seq<StepView> {
    let ls = crate::text::pieces(text);
    seq![
        StepView::Play(Cue::Beep),
        StepView::Pause(300),
        StepView::Write(" ========================== "@, Color::DarkMagenta),
        StepView::Write(" EPILOGUE: "@, Color::Magenta),
        StepView::NewLine,
    ] + epilogue_rows(ls, ls.len(), text.len() - newlines(text)) + seq![
        StepView::Write("  CONNECTION LOST. "@, Color::DarkMagenta),
    ]
}

/// The number of characters of a text that are not line feeds.
fn content_count(chars: &Vec<char>) -> (r: usize)
    ensures
        r == chars@.len() - newlines(chars@),
{
    let n = chars.len();
    let mut count: usize = 0;
    let mut i: usize = 0;
    assert(chars@.take(0) =~= Seq::<char>::empty());
    while i < n
        invariant
            n == chars@.len(),
            i <= n,
            count == i - newlines(chars@.take(i as int)),
            count <= i,
        decreases n - i,
    {
        assert(chars@.take(i + 1).drop_last() =~= chars@.take(i as int));
        if chars[i] != '\n' {
            count += 1;
        }
        i += 1;
    }
    assert(chars@.take(n as int) =~= chars@);
    count
}

fn emit_gradient_line(plan: &mut Vec<Step>, line: &Vec<char>, offset: usize, total: usize)
    requires
        offset + line@.len() <= total,
    ensures
        steps_view(final(plan)@) == steps_view(old(plan)@) + seq![StepView::Column(2)] + gradient_chars(
            line@,
            line@.len(),
            offset as int,
            total as int,
        ) + seq![StepView::NewLine],
{
    emit(plan, Step::Column(INDENT));
    let ghost head = steps_view(plan@);
    let n = line.len();
    let mut i: usize = 0;
    assert(head + gradient_chars(line@, 0, offset as int, total as int) =~= head);
    while i < n
        invariant
            n == line@.len(),
            i <= n,
            offset + n <= total,
            steps_view(plan@) == head + gradient_chars(line@, i as nat, offset as int, total as int),
        decreases n - i,
    {
        let c = line[i];
        let text = vec![c];
        assert(text@ =~= seq![c]);
        emit(plan, Step::Write(text, gradient_color(offset + i, total)));
        emit(plan, Step::Pause(30));
        i += 1;
        assert(steps_view(plan@) =~= head + gradient_chars(line@, i as nat, offset as int, total as int));
    }
    emit(plan, Step::NewLine);
}

/// The steps of an epilogue.
pub fn epilogue_steps(text: &str) -> (r: Vec<Step>)
    ensures
        steps_view(r@) == epilogue_spec(text@),
{
    let mut plan: Vec<Step> = Vec::new();
    emit(&mut plan, Step::Play(Cue::Beep));
    emit(&mut plan, Step::Pause(300));
    emit(&mut plan, Step::Write(chars_of(" ========================== "), Color::DarkMagenta));
    emit(&mut plan, Step::Write(chars_of(" EPILOGUE: "), Color::Magenta));
    emit(&mut plan, Step::NewLine);
    let ghost head = steps_view(plan@);
    let chars = chars_of(text);
    let total = content_count(&chars);
    let lines = crate::text::split_pieces(&chars);
    let ghost ls = lines_view(lines@);
    proof {
        lemma_pieces_count(chars@);
    }
    let mut offset: usize = 0;
    let mut k: usize = 0;
    assert(head + epilogue_rows(ls, 0, total as int) =~= head);
    while k < lines.len()
        invariant
            ls == lines_view(lines@),
            ls == crate::text::pieces(text@),
            total == lines_len(ls, ls.len() as int),
            k <= lines@.len(),
            offset == lines_len(ls, k as int),
            steps_view(plan@) == head + epilogue_rows(ls, k as nat, total as int),
        decreases lines@.len() - k,
    {
        proof {
            lemma_lines_len_mono(ls, k + 1, ls.len() as int);
        }
        assert(ls[k as int] == lines@[k as int]@);
        emit_gradient_line(&mut plan, &lines[k], offset, total);
        offset = offset + lines[k].len();
        k += 1;
        assert(steps_view(plan@) =~= head + epilogue_rows(ls, k as nat, total as int));
    }
    assert(steps_view(plan@) + seq![StepView::Write("  CONNECTION LOST. "@, Color::DarkMagenta)]
        =~= epilogue_spec(text@)) by {
        assert(text@.len() - newlines(text@) == total);
    }
    emit(&mut plan, Step::Write(chars_of("  CONNECTION LOST. "), Color::DarkMagenta));
    plan
}

/// Line `k` (0 to 5) of the banner art.
pub open spec fn logo_text(k: int) -> Seq<char> {
    if k == 0 {
        "   ███████╗ ██╗   ██╗ ███╗   ██╗       ████████╗ ███████╗  ██████╗ "@
    } else if k == 1 {
        "   ██╔════╝ ╚██╗ ██╔╝ ████╗  ██║       ╚══██╔══╝ ██╔════╝ ██╔════╝ "@
    } else if k == 2 {
        "   ███████╗  ╚████╔╝  ██╔██╗ ██║ █████╗   ██║    █████╗   ██║      "@
    } else if k == 3 {
        "   ╚════██║   ╚██╔╝   ██║╚██╗██║ ╚════╝   ██║    ██╔══╝   ██║      "@
    } else if k == 4 {
        "   ███████║    ██║    ██║ ╚████║          ██║    ███████╗ ╚██████╗ "@
    } else {
        "   ╚══════╝    ╚═╝    ╚═╝  ╚═══╝          ╚═╝    ╚══════╝  ╚═════╝ "@
    }
}

/// Line `k` of the banner art.
pub fn logo_line(k: usize) -> (r: &'static str)
    requires
        k < 6,
    ensures
        r@ == logo_text(k as int),
{
    if k == 0 {
        "   ███████╗ ██╗   ██╗ ███╗   ██╗       ████████╗ ███████╗  ██████╗ "
    } else if k == 1 {
        "   ██╔════╝ ╚██╗ ██╔╝ ████╗  ██║       ╚══██╔══╝ ██╔════╝ ██╔════╝ "
    } else if k == 2 {
        "   ███████╗  ╚████╔╝  ██╔██╗ ██║ █████╗   ██║    █████╗   ██║      "
    } else if k == 3 {
        "   ╚════██║   ╚██╔╝   ██║╚██╗██║ ╚════╝   ██║    ██╔══╝   ██║      "
    } else if k == 4 {
        "   ███████║    ██║    ██║ ╚████║          ██║    ███████╗ ╚██████╗ "
    } else {
        "   ╚══════╝    ╚═╝    ╚═╝  ╚═══╝          ╚═╝    ╚══════╝  ╚═════╝ "
    }
}

/// The first `k` banner lines drawn at the indent on the rows below `top`.
pub open spec fn logo_draws(top: int, k: nat) -> Seq<StepView>
    decreases k,
{
    if k == 0 {
        seq![]
    } else {
        logo_draws(top, (k - 1) as nat) + seq![
            crate::render::draw(logo_text(k - 1), 2, top + k, Color::Blue, 0),
        ]
    }
}

/// The width of the noise region beside the banner on a terminal `cols`
/// columns wide: 80 columns from the indent, cut at the right edge.
pub open spec fn title_noise_width(cols: int) -> int {
    if cols >= 82 {
        80
    } else if cols >= 2 {
        cols - 2
    } else {
        0
    }
}

/// The width of the noise region beside the banner.
pub fn title_noise_width_of(cols: u16) -> (r: u16)
    ensures
        r == title_noise_width(cols as int),
        2 + r <= cols || r == 0,
{
    if cols >= 82 {
        80
    } else if cols >= 2 {
        cols - 2
    } else {
        0
    }
}

/// The title screen of a `cols` by `rows` terminal, laid out from row
/// `top`: the scan-line overlay; the banner art on rows `top + 1` to
/// `top + 6`, never wrapped; the noise of `noise` near the banner, inside
/// the terminal's columns, when there is any; "Initialising..." glowing on row `top + 8`; the cursor
/// moved below it; a divider.
pub open spec fn title_spec(cols: int, rows: int, top: int, noise: Seq<NoiseRoll>) -> Seq<StepView> {
    scan_spec(cols, rows, PhosphorType::Green) + logo_draws(top, 6) + (if noise.len() > 0 {
        noise_spec(2, top + 1, title_noise_width(cols), 6, PhosphorType::Blue, noise)
    } else {
        seq![]
    }) + glow_spec("Initialising..."@, 2, top + 8, PhosphorType::Green, 50) + seq![
        StepView::MoveTo(0, top + 9),
    ] + divider_spec()
}

/// The steps of the title screen.
pub fn title_steps(cols: u16, rows: u16, top: u16, noise: &Vec<NoiseRoll>) -> (r: Vec<Step>)
    requires
        top + 9 <= u16::MAX,
    ensures
        steps_view(r@) == title_spec(cols as int, rows as int, top as int, noise@),
{
    let mut plan = scan_line_steps(cols, rows, PhosphorType::Green);
    let ghost head = steps_view(plan@);
    let mut k: usize = 0;
    assert(head + logo_draws(top as int, 0) =~= head);
    while k < 6
        invariant
            k <= 6,
            top + 9 <= u16::MAX,
            steps_view(plan@) == head + logo_draws(top as int, k as nat),
        decreases 6 - k,
    {
        let line = chars_of(logo_line(k));
        emit(&mut plan, Step::Draw(crate::render::Pass { text: line, col: INDENT, row: top + 1 + k as u16, color: Color::Blue, hold_ms: 0 }));
        k += 1;
        assert(steps_view(plan@) =~= head + logo_draws(top as int, k as nat));
    }
    if noise.len() > 0 {
        let width = title_noise_width_of(cols);
        emit_all(&mut plan, noise_steps(INDENT, top + 1, width, 6, PhosphorType::Blue, noise));
    }
    emit_all(&mut plan, glow_steps("Initialising...", INDENT, top + 8, PhosphorType::Green, 50));
    emit(&mut plan, Step::MoveTo(0, top + 9));
    emit_all(&mut plan, divider_steps());
    assert(steps_view(plan@) =~= title_spec(cols as int, rows as int, top as int, noise@));
    plan
}

/// Whether a step draws `text` anywhere but at (`col`, `row`).
pub open spec fn draws_elsewhere(s: StepView, text: Seq<char>, col: int, row: int) -> bool {
    match s {
        StepView::Draw(p) => p.text == text && !(p.col == col && p.row == row),
        _ => false,
    }
}

/// Whether no step of a plan draws `text` anywhere but at (`col`, `row`).
pub open spec fn only_at(s: Seq<StepView>, text: Seq<char>, col: int, row: int) -> bool {
    forall|i: int| 0 <= i < s.len() ==> !draws_elsewhere(#[trigger] s[i], text, col, row)
}

proof fn lemma_only_at_concat(a: Seq<StepView>, b: Seq<StepView>, text: Seq<char>, col: int, row: int)
    requires
        only_at(a, text, col, row),
        only_at(b, text, col, row),
    ensures
        only_at(a + b, text, col, row),
{
    assert forall|i: int| 0 <= i < (a + b).len() implies !draws_elsewhere(
        #[trigger] (a + b)[i],
        text,
        col,
        row,
    ) by {
        if i < a.len() {
            assert((a + b)[i] == a[i]);
        } else {
            assert((a + b)[i] == b[i - a.len()]);
        }
    }
}

proof fn lemma_scan_rows_other(cols: int, t: PhosphorType, k: nat, text: Seq<char>, col: int, row: int)
    requires
        text.len() >= 1,
        text[0] != '\u{2591}',
    ensures
        only_at(crate::effects::scan_rows(cols, t, k), text, col, row),
    decreases k,
{
    if k > 0 {
        lemma_scan_rows_other(cols, t, (k - 1) as nat, text, col, row);
        let prev = crate::effects::scan_rows(cols, t, (k - 1) as nat);
        let line = Seq::new(cols as nat, |_i: int| '\u{2591}');
        let d = crate::render::draw(line, 0, 2 * (k - 1), crate::phosphor::ramp(t).2, 0);
        if line.len() > 0 {
            assert(line[0] == '\u{2591}');
        }
        assert(only_at(seq![d], text, col, row));
        lemma_only_at_concat(prev, seq![d], text, col, row);
        assert(prev.push(d) == prev + seq![d]);
    }
}

proof fn lemma_logo_draws_other(top: int, k: nat, text: Seq<char>, col: int, row: int)
    requires
        k <= 6,
        text.len() >= 1,
        text[0] != ' ',
    ensures
        only_at(logo_draws(top, k), text, col, row),
    decreases k,
{
    if k > 0 {
        lemma_logo_draws_other(top, (k - 1) as nat, text, col, row);
        let prev = logo_draws(top, (k - 1) as nat);
        let d = crate::render::draw(logo_text(k - 1), 2, top + k, Color::Blue, 0);
        assert(logo_text(k - 1)[0] == ' ') by {
            reveal_strlit("   ███████╗ ██╗   ██╗ ███╗   ██╗       ████████╗ ███████╗  ██████╗ ");
            reveal_strlit("   ██╔════╝ ╚██╗ ██╔╝ ████╗  ██║       ╚══██╔══╝ ██╔════╝ ██╔════╝ ");
            reveal_strlit("   ███████╗  ╚████╔╝  ██╔██╗ ██║ █████╗   ██║    █████╗   ██║      ");
            reveal_strlit("   ╚════██║   ╚██╔╝   ██║╚██╗██║ ╚════╝   ██║    ██╔══╝   ██║      ");
            reveal_strlit("   ███████║    ██║    ██║ ╚████║          ██║    ███████╗ ╚██████╗ ");
            reveal_strlit("   ╚══════╝    ╚═╝    ╚═╝  ╚═══╝          ╚═╝    ╚══════╝  ╚═════╝ ");
        }
        assert(only_at(seq![d], text, col, row));
        lemma_only_at_concat(prev, seq![d], text, col, row);
    }
}

/// The title screen draws "Initialising..." at one place only: column 2 of
/// row `top + 8`, in its four glow passes.
pub proof fn lemma_title_initialising_once(cols: int, rows: int, top: int, noise: Seq<NoiseRoll>)
    ensures
        only_at(title_spec(cols, rows, top, noise), "Initialising..."@, 2, top + 8),
{
    let init = "Initialising..."@;
    reveal_strlit("Initialising...");
    assert(init.len() == 15 && init[0] == 'I');
    let scan = scan_spec(cols, rows, PhosphorType::Green);
    lemma_scan_rows_other(cols, PhosphorType::Green, ((rows + 1) / 2) as nat, init, 2, top + 8);
    let sr = crate::effects::scan_rows(cols, PhosphorType::Green, ((rows + 1) / 2) as nat);
    assert(only_at(seq![StepView::SaveCursor], init, 2, top + 8));
    assert(only_at(seq![StepView::RestoreCursor], init, 2, top + 8));
    lemma_only_at_concat(seq![StepView::SaveCursor], sr, init, 2, top + 8);
    lemma_only_at_concat(seq![StepView::SaveCursor] + sr, seq![StepView::RestoreCursor], init, 2, top + 8);
    lemma_logo_draws_other(top, 6, init, 2, top + 8);
    let ns: Seq<StepView> = if noise.len() > 0 {
        noise_spec(2, top + 1, title_noise_width(cols), 6, PhosphorType::Blue, noise)
    } else {
        seq![]
    };
    assert(only_at(ns, init, 2, top + 8)) by {
        if noise.len() > 0 {
            let m = noise.map_values(
                |r: NoiseRoll| crate::effects::noise_pass(
                    2,
                    top + 1,
                    title_noise_width(cols),
                    6,
                    PhosphorType::Blue,
                    r,
                ),
            );
            assert(only_at(m, init, 2, top + 8));
            lemma_only_at_concat(seq![StepView::SaveCursor], m, init, 2, top + 8);
            lemma_only_at_concat(seq![StepView::SaveCursor] + m, seq![StepView::RestoreCursor], init, 2, top + 8);
        }
    }
    let gl = glow_spec(init, 2, top + 8, PhosphorType::Green, 50);
    assert(only_at(gl, init, 2, top + 8));
    let tail = seq![StepView::MoveTo(0, top + 9)] + divider_spec();
    assert(only_at(tail, init, 2, top + 8)) by {
        assert forall|i: int| 0 <= i < tail.len() implies !draws_elsewhere(#[trigger] tail[i], init, 2, top + 8) by {
            assert(tail.len() == 6);
            assert(i == 0 || i == 1 || i == 2 || i == 3 || i == 4 || i == 5);
        }
    }
    lemma_only_at_concat(scan, logo_draws(top, 6), init, 2, top + 8);
    lemma_only_at_concat(scan + logo_draws(top, 6), ns, init, 2, top + 8);
    lemma_only_at_concat(scan + logo_draws(top, 6) + ns, gl, init, 2, top + 8);
    lemma_only_at_concat(scan + logo_draws(top, 6) + ns + gl, tail, init, 2, top + 8);
    assert(title_spec(cols, rows, top, noise) == scan + logo_draws(top, 6) + ns + gl + tail);
}

/// The first `k` banner lines of the ending screen, each at the indent in
/// magenta, followed by a line break.
pub open spec fn ending_logo(k: nat) -> Seq<StepView>
    decreases k,
{
    if k == 0 {
        seq![]
    } else {
        ending_logo((k - 1) as nat) + seq![
            StepView::Column(2),
            StepView::Write(logo_text(k - 1), Color::Magenta),
            StepView::NewLine,
        ]
    }
}

/// The horizontal rule of the ending screen: 61 double-line glyphs.
pub open spec fn ending_rule() -> Seq<char> {
    Seq::new(61, |_i: int| '\u{2550}')
}

/// The ending screen showing `timestamp` as the system time: the ending
/// cue, a cleared screen, the banner, the termination notice with a beep,
/// the rule, the experiment notice, the time with a beep, and the prompt.
pub open spec fn ending_spec(timestamp: Seq<char>) -> Seq<StepView> {
    seq![
        StepView::Play(Cue::Ending),
        StepView::Clear,
        StepView::MoveTo(0, 0),
        StepView::NewLine,
        StepView::NewLine,
        StepView::NewLine,
    ] + ending_logo(6) + seq![
        StepView::NewLine,
        StepView::NewLine,
        StepView::Play(Cue::Beep),
        StepView::Column(2),
        StepView::Write("C O N S C I O U S N E S S   T E R M I N A T E D"@, Color::Red),
        StepView::NewLine,
        StepView::NewLine,
        StepView::Column(2),
        StepView::Write(ending_rule(), Color::Cyan),
        StepView::NewLine,
        StepView::NewLine,
        StepView::Column(2),
        StepView::Write("SYN-TEC INDUSTRIES - SYNTHETIC LIFE EXPERIMENT V1.0 (BETA)"@, Color::White),
        StepView::NewLine,
        StepView::Column(2),
        StepView::Write("CONNECTION TERMINATED - SESSION LOGS ARCHIVED"@, Color::White),
        StepView::NewLine,
        StepView::NewLine,
        StepView::Play(Cue::Beep),
        StepView::Column(2),
        StepView::Write("SYSTEM TIME: "@ + timestamp, Color::Green),
        StepView::NewLine,
        StepView::Column(2),
        StepView::Write("Press any key to exit..."@, Color::White),
        StepView::NewLine,
    ]
}

fn emit_line(plan: &mut Vec<Step>, text: Vec<char>, color: Color)
    ensures
        steps_view(final(plan)@) == steps_view(old(plan)@) + seq![
            StepView::Column(2),
            StepView::Write(text@, color),
            StepView::NewLine,
        ],
{
    let ghost t = text@;
    let ghost head = steps_view(plan@);
    emit(plan, Step::Column(INDENT));
    emit(plan, Step::Write(text, color));
    emit(plan, Step::NewLine);
    assert(steps_view(plan@) =~= head + seq![
        StepView::Column(2),
        StepView::Write(t, color),
        StepView::NewLine,
    ]);
}

/// The steps of the ending screen showing `timestamp` as the system time.
pub fn ending_steps(timestamp: &str) -> (r: Vec<Step>)
    ensures
        steps_view(r@) == ending_spec(timestamp@),
{
    let mut plan: Vec<Step> = Vec::new();
    emit(&mut plan, Step::Play(Cue::Ending));
    emit(&mut plan, Step::Clear);
    emit(&mut plan, Step::MoveTo(0, 0));
    emit(&mut plan, Step::NewLine);
    emit(&mut plan, Step::NewLine);
    emit(&mut plan, Step::NewLine);
    let ghost head = steps_view(plan@);
    let mut k: usize = 0;
    assert(head + ending_logo(0) =~= head);
    while k < 6
        invariant
            k <= 6,
            steps_view(plan@) == head + ending_logo(k as nat),
        decreases 6 - k,
    {
        emit_line(&mut plan, chars_of(logo_line(k)), Color::Magenta);
        k += 1;
        assert(steps_view(plan@) =~= head + ending_logo(k as nat));
    }
    emit(&mut plan, Step::NewLine);
    emit(&mut plan, Step::NewLine);
    emit(&mut plan, Step::Play(Cue::Beep));
    emit_line(&mut plan, chars_of("C O N S C I O U S N E S S   T E R M I N A T E D"), Color::Red);
    emit(&mut plan, Step::NewLine);
    emit_line(&mut plan, repeat_char('\u{2550}', 61), Color::Cyan);
    emit(&mut plan, Step::NewLine);
    emit_line(&mut plan, chars_of("SYN-TEC INDUSTRIES - SYNTHETIC LIFE EXPERIMENT V1.0 (BETA)"), Color::White);
    emit_line(&mut plan, chars_of("CONNECTION TERMINATED - SESSION LOGS ARCHIVED"), Color::White);
    emit(&mut plan, Step::NewLine);
    emit(&mut plan, Step::Play(Cue::Beep));
    let mut stamp = chars_of("SYSTEM TIME: ");
    let mut clock = chars_of(timestamp);
    stamp.append(&mut clock);
    emit_line(&mut plan, stamp, Color::Green);
    emit_line(&mut plan, chars_of("Press any key to exit..."), Color::White);
    assert(steps_view(plan@) =~= ending_spec(timestamp@));
    plan
}

/// The ending screen stamped with the current local time.
pub fn ending_screen() -> (r: Vec<Step>)
    ensures
        exists|timestamp: Seq<char>| steps_view(r@) == ending_spec(timestamp),
{
    let stamp = local_timestamp();
    ending_steps(stamp.as_str())
}

/// The menu digit a typed character stands for: 1 to 9 for the keys '1' to
/// '9', nothing for any other character ('0' is never a menu choice).
pub open spec fn menu_digit_spec(c: char) -> Option<u32> {
    if 49 <= c as u32 <= 57 {
        Some((c as u32 - 48) as u32)
    } else {
        None
    }
}

/// The menu digit of a typed character, if it is one.
pub fn menu_digit(c: char) -> (r: Option<u32>)
    ensures
        r == menu_digit_spec(c),
        r matches Some(d) ==> 1 <= d <= 9,
{
    let u = c as u32;
    if 49 <= u && u <= 57 {
        Some(u - 48)
    } else {
        None
    }
}

/// The first menu digit in a stream of key presses, where `None` stands for
/// a key that types no character.
pub open spec fn first_digit(keys: Seq<Option<char>>) -> Option<u32>
    decreases keys.len(),
{
    if keys.len() == 0 {
        None
    } else {
        match keys[0] {
            Some(c) => if menu_digit_spec(c) is Some {
                menu_digit_spec(c)
            } else {
                first_digit(keys.drop_first())
            },
            None => first_digit(keys.drop_first()),
        }
    }
}

/// The menu digit a key press types, if any.
pub open spec fn key_digit(key: Option<char>) -> Option<u32> {
    match key {
        Some(c) => menu_digit_spec(c),
        None => None,
    }
}

/// Whether a key press types a menu digit.
pub open spec fn is_menu_key(key: Option<char>) -> bool {
    key_digit(key) is Some
}

/// The first menu digit of a key stream is a digit from 1 to 9, the digit
/// of one of its keys, with no menu digit before that key; there is none
/// exactly when no key types a menu digit.
pub proof fn lemma_first_digit(keys: Seq<Option<char>>)
    ensures
        first_digit(keys) matches Some(d) ==> 1 <= d <= 9 && exists|k: int|
            0 <= k < keys.len() && #[trigger] key_digit(keys[k]) == Some(d) && forall|j: int|
                0 <= j < k ==> !is_menu_key(#[trigger] keys[j]),
        first_digit(keys) is None <==> forall|k: int| 0 <= k < keys.len() ==> !is_menu_key(#[trigger] keys[k]),
    decreases keys.len(),
{
    if keys.len() > 0 {
        let rest = keys.drop_first();
        lemma_first_digit(rest);
        if is_menu_key(keys[0]) {
        } else {
            if first_digit(rest) is Some {
                let d = first_digit(rest)->0;
                let k = choose|k: int|
                    0 <= k < rest.len() && #[trigger] key_digit(rest[k]) == Some(d) && forall|j: int|
                        0 <= j < k ==> !is_menu_key(#[trigger] rest[j]);
                assert(keys[k + 1] == rest[k]);
                assert forall|j: int| 0 <= j < k + 1 implies !is_menu_key(#[trigger] keys[j]) by {
                    if j > 0 {
                        assert(keys[j] == rest[j - 1]);
                    }
                }
            } else {
                assert forall|k: int| 0 <= k < keys.len() implies !is_menu_key(#[trigger] keys[k]) by {
                    if k > 0 {
                        assert(keys[k] == rest[k - 1]);
                    }
                }
            }
            if exists|k: int| 0 <= k < rest.len() && is_menu_key(#[trigger] rest[k]) {
                let k = choose|k: int| 0 <= k < rest.len() && is_menu_key(#[trigger] rest[k]);
                assert(is_menu_key(keys[k + 1]));
            }
        }
    }
}

/// The digit a prompt accepts from a stream of key presses: the first key
/// that is a digit from 1 to 9; every other key is passed over.
pub fn read_digit_key(keys: &Vec<Option<char>>) -> (r: Option<u32>)
    ensures
        r == first_digit(keys@),
        r matches Some(d) ==> 1 <= d <= 9,
        r is None <==> forall|k: int| 0 <= k < keys@.len() ==> !is_menu_key(#[trigger] keys@[k]),
{
    proof {
        lemma_first_digit(keys@);
    }
    let mut i: usize = 0;
    assert(keys@.skip(0) =~= keys@);
    while i < keys.len()
        invariant
            i <= keys@.len(),
            first_digit(keys@.skip(i as int)) == first_digit(keys@),
        decreases keys@.len() - i,
    {
        assert(keys@.skip(i as int)[0] == keys@[i as int]);
        assert(keys@.skip(i as int).drop_first() =~= keys@.skip(i + 1));
        if let Some(c) = keys[i] {
            let d = menu_digit(c);
            if d.is_some() {
                return d;
            }
        }
        i += 1;
    }
    assert(keys@.skip(i as int) =~= Seq::<Option<char>>::empty());
    None
}

/// Clearing the screen: erase it and home the cursor.
pub fn clear_screen_steps() -> (r: Vec<Step>)
    ensures
        steps_view(r@) == seq![StepView::Clear, StepView::MoveTo(0, 0)],
{
    let mut plan: Vec<Step> = Vec::new();
    emit(&mut plan, Step::Clear);
    emit(&mut plan, Step::MoveTo(0, 0));
    assert(steps_view(plan@) =~= seq![StepView::Clear, StepView::MoveTo(0, 0)]);
    plan
}

/// Whether laid-out narrative lines fit the terminal's coordinates from row
/// `start`.
pub open spec fn narrative_fits(lines: Seq<Seq<char>>, start: int) -> bool {
    &&& start + lines.len() <= u16::MAX
    &&& forall|k: int| 0 <= k < lines.len() ==> (#[trigger] lines[k]).len() + 2 <= u16::MAX
}

/// A narrative paragraph on a terminal `term_width` columns wide from row
/// `start_row`: the laid-out lines typed one per row, with a 3 in 10 chance
/// of light noise over them. Gives the steps and the next free row, or
/// `None` when the lines would run past the terminal's coordinates.
pub fn narrative_block(text: &str, phosphor_type: PhosphorType, term_width: u16, start_row: u16) -> (r:
    Option<(Vec<Step>, u16)>)
    ensures
        r is None <==> !narrative_fits(narrative_layout(text@, term_width as int), start_row as int),
        r matches Some((steps, next)) ==> {
            let lines = narrative_layout(text@, term_width as int);
            &&& next == start_row + lines.len()
            &&& exists|noise: Seq<NoiseRoll>|
                {
                    &&& (noise.len() == 0 || noise.len() == noise_count(
                        noise_width(term_width as int),
                        lines.len() as int,
                        50,
                    ))
                    &&& steps_view(steps@) == narrative_spec(
                        lines,
                        phosphor_type,
                        term_width as int,
                        start_row as int,
                        noise,
                    )
                }
        },
{
    let lines = layout_narrative(text, term_width);
    let ghost ls = lines_view(lines@);
    let n = lines.len();
    if n > (u16::MAX - start_row) as usize {
        return None;
    }
    let mut k: usize = 0;
    while k < n
        invariant
            n == lines@.len(),
            k <= n,
            ls == lines_view(lines@),
            ls == narrative_layout(text@, term_width as int),
            forall|j: int| 0 <= j < k ==> (#[trigger] lines@[j])@.len() + 2 <= u16::MAX,
        decreases n - k,
    {
        if lines[k].len() > (u16::MAX - 2) as usize {
            assert(ls[k as int].len() + 2 > u16::MAX);
            return None;
        }
        k += 1;
    }
    assert forall|j: int| 0 <= j < ls.len() implies (#[trigger] ls[j]).len() + 2 <= u16::MAX by {
        assert(ls[j] == lines@[j]@);
    }
    let width = if term_width >= 4 {
        term_width - 4
    } else {
        0
    };
    let noise = maybe_roll_noise(30, width, n as u16, 50);
    let steps = narrative_steps(&lines, phosphor_type, term_width, start_row, &noise);
    Some((steps, start_row + n as u16))
}

/// The title screen of a `cols` by `rows` terminal from row `top`, with a
/// 1 in 5 chance of noise near the banner, or `None` when the title would
/// run past the terminal's coordinates.
pub fn title_screen(cols: u16, rows: u16, top: u16) -> (r: Option<Vec<Step>>)
    ensures
        r is None <==> top + 9 > u16::MAX,
        r matches Some(steps) ==> exists|noise: Seq<NoiseRoll>|
            {
                &&& (noise.len() == 0 || noise.len() == noise_count(title_noise_width(cols as int), 6, 30))
                &&& steps_view(steps@) == title_spec(cols as int, rows as int, top as int, noise)
            },
{
    if top > u16::MAX - 9 {
        return None;
    }
    let noise = maybe_roll_noise(20, title_noise_width_of(cols), 6, 30);
    Some(title_steps(cols, rows, top, &noise))
}

} // verus!
