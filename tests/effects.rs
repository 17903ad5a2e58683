use syntec::effects::{
    burn_in_steps, flicker_gate, flicker_steps, light_flicker, noise_gate, maybe_roll_noise, noise_count_of, noise_steps,
    phosphor_noise, power_on_steps, random_flicker_check, repeat_char, roll_noise,
    scan_line_steps, FlickerRoll, NoiseRoll,
};
use syntec::phosphor::{get_phosphor_colors, PhosphorType};
use syntec::render::{Color, Step};
use syntec::sound::Cue;

fn draw_cells(steps: &[Step]) -> Vec<(u16, u16, String, Color)> {
    let mut out = Vec::new();
    for s in steps {
        if let Step::Draw(p) = s {
            out.push((p.col, p.row, p.text.iter().collect(), p.color));
        }
    }
    out
}

#[test]
fn noise_count_is_the_floor_of_area_times_intensity() {
    assert_eq!(noise_count_of(80, 6, 30), 14);
    assert_eq!(noise_count_of(76, 3, 50), 11);
    assert_eq!(noise_count_of(0, 6, 1000), 0);
    assert_eq!(noise_count_of(10, 10, 1000), 100);
}

#[test]
fn phosphor_noise_writes_the_count_inside_the_region() {
    for _ in 0..20 {
        let steps = phosphor_noise(5, 7, 12, 4, PhosphorType::Green, 250);
        assert_eq!(steps.len(), 12 * 4 / 4 + 2);
        assert!(matches!(steps[0], Step::SaveCursor));
        assert!(matches!(steps[steps.len() - 1], Step::RestoreCursor));
        let cells = draw_cells(&steps);
        assert_eq!(cells.len(), 12);
        let (b, m, d) = get_phosphor_colors(PhosphorType::Green);
        for (c, r, t, color) in cells {
            assert!(5 <= c && c < 17);
            assert!(7 <= r && r < 11);
            assert_eq!(t.chars().count(), 1);
            assert!("\u{00B7}:`. ".contains(t.as_str()));
            assert!(color == b || color == m || color == d);
        }
    }
}

#[test]
fn noise_rolls_stay_in_range() {
    for _ in 0..20 {
        let rolls = roll_noise(3, 2, 1000);
        assert_eq!(rolls.len(), 6);
        for r in rolls {
            assert!(r.dx < 3 && r.dy < 2 && r.glyph < 6 && r.level < 10);
        }
    }
}

#[test]
fn noise_from_given_rolls() {
    let rolls = vec![
        NoiseRoll { dx: 1, dy: 0, glyph: 1, level: 0 },
        NoiseRoll { dx: 13, dy: 5, glyph: 4, level: 5 },
        NoiseRoll { dx: 0, dy: 1, glyph: 5, level: 9 },
    ];
    let (b, m, d) = get_phosphor_colors(PhosphorType::Blue);
    let steps = noise_steps(10, 20, 4, 2, PhosphorType::Blue, &rolls);
    assert_eq!(draw_cells(&steps), vec![
        (11, 20, ":".to_string(), b),
        (11, 21, ".".to_string(), m),
        (10, 21, " ".to_string(), d),
    ]);
}

#[test]
fn noise_that_never_shows_and_always_shows() {
    assert_eq!(maybe_roll_noise(0, 80, 6, 30).len(), 0);
    assert_eq!(maybe_roll_noise(100, 80, 6, 30).len(), 14);
}

#[test]
fn scan_lines_cover_every_even_row() {
    let steps = scan_line_steps(5, 5, PhosphorType::Green);
    let (_, _, d) = get_phosphor_colors(PhosphorType::Green);
    let line: String = std::iter::repeat('\u{2591}').take(5).collect();
    assert_eq!(draw_cells(&steps), vec![
        (0, 0, line.clone(), d),
        (0, 2, line.clone(), d),
        (0, 4, line, d),
    ]);
    assert!(matches!(steps[0], Step::SaveCursor));
}

#[test]
fn power_on_sweeps_in_order() {
    let (b, m, d) = get_phosphor_colors(PhosphorType::Green);
    let steps = power_on_steps(3, 2, PhosphorType::Green);
    assert!(matches!(steps[0], Step::Clear));
    assert!(matches!(steps[steps.len() - 1], Step::Clear));
    let cells = draw_cells(&steps);
    assert_eq!(cells.len(), 3 + 2 + 6);
    for x in 0..3 {
        assert_eq!(cells[x as usize], (x, 1, "\u{2550}".to_string(), b));
    }
    assert_eq!(cells[3], (0, 0, "   ".to_string(), d));
    assert_eq!(cells[4], (0, 1, "   ".to_string(), d));
    assert_eq!(cells[5], (0, 0, " ".to_string(), m));
    assert_eq!(cells[6], (0, 1, " ".to_string(), m));
    assert_eq!(cells[10], (2, 1, " ".to_string(), m));
    let mut total = 0;
    for s in &steps {
        match s {
            Step::Draw(p) => total += p.hold_ms,
            Step::Pause(ms) => total += ms,
            _ => {}
        }
    }
    // 1 ms per column, 100 ms pause, 5 ms per row, 1 ms per swept cell.
    assert_eq!(total, 3 + 100 + 5 * 2 + 3 * 2);
}

#[test]
fn burn_in_is_one_dim_draw() {
    let (_, _, d) = get_phosphor_colors(PhosphorType::Amber);
    let steps = burn_in_steps("GHOST", 3, 4, PhosphorType::Amber);
    assert_eq!(steps.len(), 3);
    assert_eq!(draw_cells(&steps), vec![(3, 4, "GHOST".to_string(), d)]);
}

#[test]
fn flicker_from_given_rolls() {
    let rolls = vec![FlickerRoll { x: 81, y: 3, glyph: 0 }, FlickerRoll { x: 5, y: 30, glyph: 3 }];
    let steps = flicker_steps(80, 24, true, &rolls);
    assert!(matches!(steps[0], Step::Play(Cue::Flicker)));
    assert!(matches!(steps[steps.len() - 1], Step::Pause(50)));
    assert_eq!(draw_cells(&steps), vec![
        (1, 3, "\u{2588}".to_string(), Color::White),
        (5, 6, "\u{2591}".to_string(), Color::White),
    ]);
    let quiet = flicker_steps(0, 24, false, &rolls);
    assert_eq!(quiet.len(), 1);
}

#[test]
fn light_flicker_draws_three_to_nine_cells_on_screen() {
    for _ in 0..50 {
        let steps = light_flicker(40, 10);
        let cells = draw_cells(&steps);
        assert!(3 <= cells.len() && cells.len() <= 9);
        for (c, r, _, color) in cells {
            assert!(c < 40 && r < 10);
            assert_eq!(color, Color::White);
        }
    }
}

#[test]
fn random_flicker_check_is_nothing_or_a_flicker() {
    for _ in 0..50 {
        let steps = random_flicker_check(40, 10);
        if !steps.is_empty() {
            let n = draw_cells(&steps).len();
            assert!(3 <= n && n <= 9);
        }
    }
}

#[test]
fn repeat_char_repeats() {
    assert_eq!(repeat_char('x', 3), vec!['x', 'x', 'x']);
    assert!(repeat_char('x', 0).is_empty());
}

#[test]
fn gates_fire_or_stay_quiet() {
    assert!(flicker_gate(false, 40, 10).is_empty());
    let n = draw_cells(&flicker_gate(true, 40, 10)).len();
    assert!(3 <= n && n <= 9);
    assert!(noise_gate(false, 80, 6, 30).is_empty());
    assert_eq!(noise_gate(true, 80, 6, 30).len(), 14);
}
