use syntec::display::{
    choices_steps, clear_screen_steps, divider_steps, ending_screen, ending_steps, epilogue_steps,
    error_steps, gradient_color, hours_color, hours_steps, menu_digit, message_steps,
    narrative_block, narrative_steps, read_digit_key, title_screen, title_steps,
};
use syntec::effects::NoiseRoll;
use syntec::phosphor::PhosphorType;
use syntec::render::{Color, Step};
use syntec::sound::Cue;

fn text(v: &[char]) -> String {
    v.iter().collect()
}

fn writes(steps: &[Step]) -> Vec<(String, Color)> {
    let mut out = Vec::new();
    for s in steps {
        if let Step::Write(t, c) = s {
            out.push((text(t), *c));
        }
    }
    out
}

fn draws(steps: &[Step]) -> Vec<(String, u16, u16)> {
    let mut out = Vec::new();
    for s in steps {
        if let Step::Draw(p) = s {
            out.push((text(&p.text), p.col, p.row));
        }
    }
    out
}

#[test]
fn hours_bands() {
    assert_eq!(hours_color(i32::MIN), Color::Red);
    assert_eq!(hours_color(-5), Color::Red);
    assert_eq!(hours_color(3), Color::Red);
    assert_eq!(hours_color(4), Color::Yellow);
    assert_eq!(hours_color(6), Color::Yellow);
    assert_eq!(hours_color(7), Color::Green);
    assert_eq!(hours_color(12), Color::Green);
}

#[test]
fn hours_readout_text() {
    let steps = hours_steps(9);
    assert!(matches!(steps[0], Step::Column(2)));
    assert_eq!(writes(&steps), vec![("9 hours now remain.".to_string(), Color::Green)]);
    assert_eq!(writes(&hours_steps(-1)), vec![("-1 hours now remain.".to_string(), Color::Red)]);
}

#[test]
fn digit_filter_skips_other_keys() {
    assert_eq!(read_digit_key(&vec![Some('a'), Some('0'), Some('5')]), Some(5));
    assert_eq!(read_digit_key(&vec![None, Some('x'), Some('9'), Some('2')]), Some(9));
    assert_eq!(read_digit_key(&vec![Some('0'), None, Some(' ')]), None);
    assert_eq!(menu_digit('0'), None);
    assert_eq!(menu_digit('1'), Some(1));
    assert_eq!(menu_digit('9'), Some(9));
    assert_eq!(menu_digit('a'), None);
}

#[test]
fn title_has_one_initialising_line_and_one_divider() {
    let steps = title_steps(80, 24, 0, &Vec::new());
    let init: Vec<(String, u16, u16)> =
        draws(&steps).into_iter().filter(|d| d.0 == "Initialising...").collect();
    assert_eq!(init.len(), 4);
    assert!(init.iter().all(|d| d.2 == init[0].2));
    let rule = format!("{} ", "-".repeat(55));
    let dividers = writes(&steps).into_iter().filter(|w| w.0 == rule).count();
    assert_eq!(dividers, 1);
    let logo: Vec<(String, u16, u16)> =
        draws(&steps).into_iter().filter(|d| d.1 == 2 && d.0.chars().count() == 67).collect();
    assert_eq!(logo.len(), 6);
    for (k, d) in logo.iter().enumerate() {
        assert_eq!(d.0.chars().count(), 67);
        assert_eq!(d.2, 1 + k as u16);
    }
}

#[test]
fn title_with_noise_near_the_banner() {
    let noise = vec![NoiseRoll { dx: 3, dy: 2, glyph: 1, level: 1 }];
    let steps = title_steps(80, 24, 0, &noise);
    assert!(draws(&steps).contains(&(":".to_string(), 5, 3)));
    assert!(title_screen(80, 24, 65530).is_none());
    assert!(title_screen(80, 24, 0).is_some());
}

#[test]
fn narrative_lines_type_on_consecutive_rows() {
    let lines = vec!["ab".chars().collect::<Vec<char>>(), "c".chars().collect()];
    let steps = narrative_steps(&lines, PhosphorType::Green, 80, 5, &Vec::new());
    let mut finals = Vec::new();
    for s in &steps {
        if let Step::Draw(p) = s {
            if p.color == Color::White && p.text.len() == if p.row == 5 { 2 } else { 1 } {
                finals.push((text(&p.text), p.col, p.row));
            }
        }
    }
    assert_eq!(finals, vec![("ab".to_string(), 2, 5), ("c".to_string(), 2, 6)]);
    assert!(steps.iter().any(|s| matches!(s, Step::MoveTo(0, 7))));
    assert!(matches!(steps[steps.len() - 1], Step::Pause(500)));
}

#[test]
fn narrative_block_reports_the_next_row() {
    let (steps, next) = narrative_block("one two\nthree", PhosphorType::Green, 80, 3).unwrap();
    assert_eq!(next, 5);
    assert!(!steps.is_empty());
    assert!(narrative_block("a\nb", PhosphorType::Green, 80, 65535).is_none());
}

#[test]
fn choices_are_indented_under_the_header() {
    let steps = choices_steps(&["1. Remain where I am.", "2. Stand up."]);
    assert_eq!(writes(&steps), vec![
        ("What next?".to_string(), Color::Cyan),
        ("1. Remain where I am.".to_string(), Color::DarkCyan),
        ("2. Stand up.".to_string(), Color::DarkCyan),
    ]);
    assert!(matches!(steps[4], Step::Column(4)));
}

#[test]
fn divider_rule() {
    let steps = divider_steps();
    assert_eq!(steps.len(), 5);
    assert_eq!(writes(&steps), vec![(format!("{} ", "-".repeat(55)), Color::DarkBlue)]);
}

#[test]
fn error_message_plays_the_error_cue() {
    let steps = error_steps("BAD");
    assert!(matches!(steps[0], Step::Play(Cue::Error)));
    assert_eq!(writes(&steps), vec![("BAD".to_string(), Color::Red)]);
    assert_eq!(writes(&message_steps("hi", Color::Cyan)), vec![("hi".to_string(), Color::Cyan)]);
    assert_eq!(clear_screen_steps().len(), 2);
}

#[test]
fn gradient_spreads_over_the_line() {
    assert_eq!(gradient_color(0, 12), Color::Blue);
    assert_eq!(gradient_color(2, 12), Color::Cyan);
    assert_eq!(gradient_color(6, 12), Color::Yellow);
    assert_eq!(gradient_color(11, 12), Color::Magenta);
    assert_eq!(gradient_color(0, 1), Color::Blue);
}

#[test]
fn epilogue_writes_each_character_in_the_gradient() {
    let steps = epilogue_steps("abcdef");
    assert!(matches!(steps[0], Step::Play(Cue::Beep)));
    let w = writes(&steps);
    assert_eq!(w[0], (" ========================== ".to_string(), Color::DarkMagenta));
    assert_eq!(w[1], (" EPILOGUE: ".to_string(), Color::Magenta));
    let colors: Vec<Color> = w[2..8].iter().map(|x| x.1).collect();
    assert_eq!(colors, vec![
        Color::Blue,
        Color::Cyan,
        Color::Green,
        Color::Yellow,
        Color::DarkYellow,
        Color::Magenta,
    ]);
    assert_eq!(w[8], ("  CONNECTION LOST. ".to_string(), Color::DarkMagenta));
}

#[test]
fn ending_screen_shows_the_time() {
    let steps = ending_steps("2024-01-02 03:04:05");
    assert!(matches!(steps[0], Step::Play(Cue::Ending)));
    assert!(writes(&steps).contains(&("SYSTEM TIME: 2024-01-02 03:04:05".to_string(), Color::Green)));
    let now = ending_screen();
    let stamp = writes(&now).into_iter().find(|w| w.0.starts_with("SYSTEM TIME: ")).unwrap();
    assert!(stamp.0.len() > "SYSTEM TIME: ".len());
}

#[test]
fn epilogue_gradient_runs_across_lines() {
    let steps = epilogue_steps("ab\ncd");
    let w = writes(&steps);
    let chars: Vec<(String, Color)> = w[2..6].to_vec();
    assert_eq!(chars, vec![
        ("a".to_string(), Color::Blue),
        ("b".to_string(), Color::Cyan),
        ("c".to_string(), Color::Yellow),
        ("d".to_string(), Color::DarkYellow),
    ]);
    let empty_lines = writes(&epilogue_steps("\n\n"));
    assert_eq!(empty_lines.len(), 3);
}

#[test]
fn blank_narrative_line_advances_one_row() {
    let (_, next) = narrative_block("   ", PhosphorType::Green, 7, 4).unwrap();
    assert_eq!(next, 5);
}

#[test]
fn title_noise_stays_inside_the_terminal() {
    let noise = vec![
        NoiseRoll { dx: 79, dy: 0, glyph: 1, level: 0 },
        NoiseRoll { dx: 77, dy: 5, glyph: 1, level: 0 },
    ];
    let steps = title_steps(80, 24, 0, &noise);
    let cells: Vec<(String, u16, u16)> = draws(&steps).into_iter().filter(|d| d.0 == ":").collect();
    assert_eq!(cells, vec![(":".to_string(), 3, 1), (":".to_string(), 79, 6)]);
    for _ in 0..20 {
        let screen = title_screen(40, 24, 0).unwrap();
        for s in &screen {
            if let Step::Draw(p) = s {
                if p.text.len() == 1 {
                    assert!(p.col < 40);
                }
            }
        }
    }
}
