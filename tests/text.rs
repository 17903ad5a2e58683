use syntec::text::{decimal_of, layout_narrative, signed_decimal_of, split_lines, split_words, wrap};

fn strings(v: Vec<Vec<char>>) -> Vec<String> {
    v.into_iter().map(|l| l.into_iter().collect()).collect()
}

#[test]
fn a_line_that_fits_is_kept_as_is() {
    assert_eq!(strings(wrap("  two  spaces ", 20)), vec!["  two  spaces ".to_string()]);
}

#[test]
fn greedy_wrap_fills_lines() {
    let got = strings(wrap("the quick brown fox jumps over the lazy dog", 10));
    assert_eq!(got, vec!["the quick", "brown fox", "jumps over", "the lazy", "dog"]);
    for l in &got {
        assert!(l.len() <= 10);
    }
}

#[test]
fn a_long_word_is_never_split() {
    let got = strings(wrap("aaa bbb cc dddddddddd e", 5));
    assert_eq!(got, vec!["aaa", "bbb", "cc", "dddddddddd", "e"]);
}

#[test]
fn wrapping_keeps_the_words() {
    let line = "  hello   world\tfoo  bar baz ";
    let got = strings(wrap(line, 8));
    let joined = got.join(" ");
    let a: Vec<&str> = joined.split_whitespace().collect();
    let b: Vec<&str> = line.split_whitespace().collect();
    assert_eq!(a, b);
    assert_eq!(got, vec!["hello", "world", "foo bar", "baz"]);
}

#[test]
fn words_are_runs_of_non_blank_characters() {
    let chars: Vec<char> = " a\u{00A0}bc  d\n".chars().collect();
    assert_eq!(strings(split_words(&chars)), vec!["a", "bc", "d"]);
}

#[test]
fn lines_split_at_line_feeds() {
    let chars: Vec<char> = "one\n\ntwo\n".chars().collect();
    assert_eq!(strings(split_lines(&chars)), vec!["one", "", "two"]);
    assert_eq!(strings(split_lines(&Vec::new())), Vec::<String>::new());
}

#[test]
fn narrative_of_two_hundred_characters_on_82_columns() {
    let text = "You rise slowly to your knees, shakily at first, but slowly gaining your stability as your gyroscope springs into operation and the warm afternoon light settles gently over the quiet meadow at last ok";
    assert_eq!(text.len(), 200);
    let lines = strings(layout_narrative(text, 82));
    assert_eq!(lines.len(), 3);
    let expected = (text.len() + 75) / 76;
    assert!(lines.len() + 1 >= expected && lines.len() <= expected + 1);
    for l in &lines {
        assert!(l.len() <= 76);
    }
}

#[test]
fn blank_narrative_lines_pass_through() {
    let lines = strings(layout_narrative("first\n\nsecond", 80));
    assert_eq!(lines, vec!["first", "", "second"]);
}

#[test]
fn narrow_terminal_puts_each_word_alone() {
    let lines = strings(layout_narrative("ab cd", 4));
    assert_eq!(lines, vec!["ab", "cd"]);
}

#[test]
fn decimal_numerals() {
    let s: String = decimal_of(0).into_iter().collect();
    assert_eq!(s, "0");
    let s: String = decimal_of(1203).into_iter().collect();
    assert_eq!(s, "1203");
    let s: String = signed_decimal_of(-7).into_iter().collect();
    assert_eq!(s, "-7");
    let s: String = signed_decimal_of(i32::MIN).into_iter().collect();
    assert_eq!(s, "-2147483648");
}

#[test]
fn a_blank_line_longer_than_the_width_gives_one_empty_row() {
    assert_eq!(strings(wrap("   ", 1)), vec![String::new()]);
    let lines = strings(layout_narrative("a\n          \nb", 7));
    assert_eq!(lines, vec!["a", "", "b"]);
}

#[test]
fn a_carriage_return_before_a_line_feed_is_dropped() {
    let chars: Vec<char> = "one\r\ntwo\r".chars().collect();
    assert_eq!(strings(split_lines(&chars)), vec!["one", "two\r"]);
    let chars: Vec<char> = "a\r\n".chars().collect();
    assert_eq!(strings(split_lines(&chars)), vec!["a"]);
}
