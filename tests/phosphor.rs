use syntec::phosphor::{get_phosphor_colors, glow_steps, typing_steps, PhosphorType};
use syntec::render::{Color, Step};

fn draws(steps: &[Step]) -> Vec<(String, u16, u16, Color, u64)> {
    let mut out = Vec::new();
    for s in steps {
        if let Step::Draw(p) = s {
            out.push((p.text.iter().collect(), p.col, p.row, p.color, p.hold_ms));
        }
    }
    out
}

#[test]
fn green_ramp_is_the_green_phosphor() {
    let (b, m, d) = get_phosphor_colors(PhosphorType::Green);
    assert_eq!(b, Color::Rgb { r: 144, g: 238, b: 144 });
    assert_eq!(m, Color::Rgb { r: 85, g: 160, b: 85 });
    assert_eq!(d, Color::Rgb { r: 40, g: 80, b: 40 });
}

#[test]
fn amber_and_blue_ramps() {
    let (b, m, d) = get_phosphor_colors(PhosphorType::Amber);
    assert_eq!((b, m, d), (
        Color::Rgb { r: 255, g: 176, b: 0 },
        Color::Rgb { r: 180, g: 120, b: 0 },
        Color::Rgb { r: 100, g: 70, b: 0 },
    ));
    let (b, m, d) = get_phosphor_colors(PhosphorType::Blue);
    assert_eq!((b, m, d), (
        Color::Rgb { r: 100, g: 180, b: 255 },
        Color::Rgb { r: 65, g: 120, b: 180 },
        Color::Rgb { r: 30, g: 60, b: 120 },
    ));
}

#[test]
fn glow_is_four_passes_in_stage_order() {
    let steps = glow_steps("Initialising...", 2, 8, PhosphorType::Green, 50);
    let (b, m, d) = get_phosphor_colors(PhosphorType::Green);
    let got = draws(&steps);
    assert_eq!(steps.len(), 4);
    assert_eq!(got, vec![
        ("Initialising...".to_string(), 2, 8, b, 50),
        ("Initialising...".to_string(), 2, 8, m, 50),
        ("Initialising...".to_string(), 2, 8, d, 50),
        ("Initialising...".to_string(), 2, 8, Color::White, 0),
    ]);
}

fn shades_after(steps: &[Step], row: u16, width: usize) -> Vec<Option<Color>> {
    let mut cells = vec![None; width];
    for s in steps {
        if let Step::Draw(p) = s {
            if p.row == row {
                for k in 0..p.text.len() {
                    let c = p.col as usize + k;
                    if c < width {
                        cells[c] = Some(p.color);
                    }
                }
            }
        }
    }
    cells
}

#[test]
fn typing_leaves_a_trailing_glow_window() {
    let text = "HELLO WORLD";
    let steps = typing_steps(text, 0, 3, PhosphorType::Amber, 15);
    let (b, m, d) = get_phosphor_colors(PhosphorType::Amber);
    // Cut the plan after each character's pause and check every typed cell.
    let mut typed = 0;
    for (k, s) in steps.iter().enumerate() {
        if let Step::Pause(_) = s {
            if typed == text.len() {
                break;
            }
            let cells = shades_after(&steps[..=k], 3, 20);
            for j in 0..=typed {
                let age = typed - j;
                let want = match age {
                    0 => b,
                    1 => m,
                    2 => d,
                    _ => Color::White,
                };
                assert_eq!(cells[j], Some(want), "after char {} cell {}", typed, j);
            }
            for j in typed + 1..20 {
                assert_eq!(cells[j], None);
            }
            typed += 1;
        }
    }
    assert_eq!(typed, text.len());
}

#[test]
fn typing_ends_settled_in_white() {
    let steps = typing_steps("abcd", 4, 1, PhosphorType::Green, 10);
    let cells = shades_after(&steps, 1, 10);
    for c in 4..8 {
        assert_eq!(cells[c], Some(Color::White));
    }
    match steps.last() {
        Some(Step::NewLine) => {}
        _ => panic!("typing should end with a line break"),
    }
}

#[test]
fn typing_fades_the_last_three_characters() {
    let steps = typing_steps("abcd", 0, 0, PhosphorType::Green, 10);
    let (_, m, d) = get_phosphor_colors(PhosphorType::Green);
    let got = draws(&steps);
    // 1 + 2 + 3 + 4 per-character draws, then 3 medium, 3 dim, 1 white.
    assert_eq!(got.len(), 10 + 3 + 3 + 1);
    let tail: Vec<(String, u16, Color)> = got[10..].iter().map(|g| (g.0.clone(), g.1, g.3)).collect();
    assert_eq!(tail, vec![
        ("d".to_string(), 3, m),
        ("c".to_string(), 2, m),
        ("b".to_string(), 1, m),
        ("d".to_string(), 3, d),
        ("c".to_string(), 2, d),
        ("b".to_string(), 1, d),
        ("abcd".to_string(), 0, Color::White),
    ]);
}

#[test]
fn typing_an_empty_line() {
    let steps = typing_steps("", 2, 0, PhosphorType::Green, 15);
    let got = draws(&steps);
    assert_eq!(got.len(), 1);
    assert_eq!(got[0].0, "");
}
