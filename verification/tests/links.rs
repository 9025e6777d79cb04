use note_vault::links::normalize_links;
use regex::{Captures, Regex};

fn by_pattern(pattern: &Regex, body: &str) -> String {
    pattern
        .replace_all(body, |caps: &Captures| {
            let target = caps.get(1).unwrap().as_str();
            let label = match caps.get(2) {
                Some(label) => &label.as_str()[1..],
                None => target,
            };
            format!("[{}]({})", label, target)
        })
        .to_string()
}

fn link_pattern() -> Regex {
    Regex::new(r"\[\[(.+?)(\|.+?)?\]\]").unwrap()
}

/// Every text of `length` characters over `alphabet`, held against the pattern.
fn agree_on_all(alphabet: &[char], length: usize) {
    let pattern = link_pattern();
    let mut digits = vec![0usize; length];
    loop {
        let text: String = digits.iter().map(|d| alphabet[*d]).collect();
        assert_eq!(normalize_links(&text), by_pattern(&pattern, &text), "on {:?}", text);
        let mut place = 0;
        while place < length && digits[place] + 1 == alphabet.len() {
            digits[place] = 0;
            place += 1;
        }
        if place == length {
            return;
        }
        digits[place] += 1;
    }
}

#[test]
fn text_without_links_is_unchanged() {
    assert_eq!(normalize_links(""), "");
    assert_eq!(normalize_links("plain text, no links"), "plain text, no links");
    assert_eq!(normalize_links("a [single] bracket | and a bar"), "a [single] bracket | and a bar");
    assert_eq!(normalize_links("line one\nline two\n"), "line one\nline two\n");
}

#[test]
fn bare_link_uses_target_as_label() {
    assert_eq!(normalize_links("[[note]]"), "[note](note)");
    assert_eq!(normalize_links("[[a b c]]"), "[a b c](a b c)");
    assert_eq!(normalize_links("[[x]]"), "[x](x)");
}

#[test]
fn labelled_link_puts_label_first() {
    assert_eq!(normalize_links("[[note|the note]]"), "[the note](note)");
    assert_eq!(normalize_links("[[t|l]]"), "[l](t)");
}

#[test]
fn two_links_are_rewritten_apart() {
    assert_eq!(normalize_links("[[a]] and [[b|B]]"), "[a](a) and [B](b)");
    assert_eq!(normalize_links("[[a]] [[b]]"), "[a](a) [b](b)");
    assert_eq!(normalize_links("[[a]][[b]]"), "[a](a)[b](b)");
}

#[test]
fn unterminated_link_is_kept() {
    assert_eq!(normalize_links("text [[unterminated"), "text [[unterminated");
    assert_eq!(normalize_links("text [[unterminated]"), "text [[unterminated]");
    assert_eq!(normalize_links("closed]] but never opened"), "closed]] but never opened");
}

#[test]
fn empty_target_is_kept() {
    assert_eq!(normalize_links("[[]]"), "[[]]");
    assert_eq!(normalize_links("see [[]] here"), "see [[]] here");
}

#[test]
fn empty_target_takes_what_follows() {
    assert_eq!(normalize_links("[[]]]]"), "[]](])]");
    assert_eq!(normalize_links("[[]] and [[a]]"), "[]] and [[a](]] and [[a)");
}

#[test]
fn first_bar_parts_target_from_label() {
    assert_eq!(normalize_links("[[a|b|c]]"), "[b|c](a)");
    assert_eq!(normalize_links("[[|a]]"), "[|a](|a)");
    assert_eq!(normalize_links("[[|a|b]]"), "[b](|a)");
}

#[test]
fn bar_without_label_belongs_to_target() {
    assert_eq!(normalize_links("[[a|]]"), "[a|](a|)");
    assert_eq!(normalize_links("[[a|]]]"), "[]](a)");
}

#[test]
fn link_does_not_cross_a_line_end() {
    assert_eq!(normalize_links("[[a\nb]]"), "[[a\nb]]");
    assert_eq!(normalize_links("[[a|b\nc]]"), "[[a|b\nc]]");
    assert_eq!(normalize_links("[[x\n[[a]]"), "[[x\n[a](a)");
    assert_eq!(normalize_links("[[a\r\nb]]"), "[[a\r\nb]]");
    assert_eq!(normalize_links("[[a\rb]]"), "[a\rb](a\rb)");
}

#[test]
fn link_starts_at_first_opening() {
    assert_eq!(normalize_links("[[[a]]"), "[[a]([a)");
    assert_eq!(normalize_links("[[a [[b]]"), "[a [[b](a [[b)");
    assert_eq!(normalize_links("[[a]]]"), "[a](a)]");
}

#[test]
fn link_closes_at_first_closing() {
    assert_eq!(normalize_links("[[a]] b]]"), "[a](a) b]]");
    assert_eq!(normalize_links("[[a|b]] c]]"), "[b](a) c]]");
    assert_eq!(normalize_links("[[a] b]]"), "[a] b](a] b)");
}

#[test]
fn text_around_links_is_kept() {
    assert_eq!(normalize_links("see [[b]]"), "see [b](b)");
    assert_eq!(normalize_links("# Title\n\nsee [[b|this]], then [[c]].\n"), "# Title\n\nsee [this](b), then [c](c).\n");
}

#[test]
fn characters_beyond_ascii_are_kept() {
    assert_eq!(normalize_links("[[ñandú|el ñandú]] — √"), "[el ñandú](ñandú) — √");
    assert_eq!(normalize_links("日本 [[東京]] 語"), "日本 [東京](東京) 語");
}

#[test]
fn long_run_of_openings_is_passed_over() {
    let text = "[[".repeat(20_000);
    assert_eq!(normalize_links(&text), text);
    let bars = format!("[[{}", "|".repeat(20_000));
    assert_eq!(normalize_links(&bars), bars);
}

#[test]
fn agrees_with_pattern_on_short_texts() {
    for length in 0..=6 {
        agree_on_all(&['[', ']', '|', 'a', '\n'], length);
    }
}

#[test]
fn agrees_with_pattern_on_brackets_and_bars() {
    for length in 7..=10 {
        agree_on_all(&['[', ']', '|'], length);
    }
}

#[test]
fn agrees_with_pattern_on_longer_lines() {
    for length in 7..=8 {
        agree_on_all(&['[', ']', '|', 'a'], length);
    }
}

#[test]
fn agrees_with_pattern_across_lines() {
    agree_on_all(&['[', ']', '|', '\n'], 8);
}

#[test]
fn agrees_with_pattern_on_other_line_breaks() {
    for length in 0..=5 {
        agree_on_all(&['[', ']', '|', '\r', '\n', '\u{85}', '\u{2028}', 'é'], length);
    }
}

#[test]
fn agrees_with_pattern_on_long_texts() {
    let pattern = link_pattern();
    let alphabet = ['[', '[', ']', ']', '|', 'a', 'b', ' ', '\n', 'ñ'];
    let mut state: u64 = 0x2545_f491_4f6c_dd1d;
    for round in 0..20_000 {
        let length = 1 + round % 60;
        let mut text = String::new();
        for _ in 0..length {
            state ^= state << 13;
            state ^= state >> 7;
            state ^= state << 17;
            text.push(alphabet[(state % 10) as usize]);
        }
        assert_eq!(normalize_links(&text), by_pattern(&pattern, &text), "on {:?}", text);
    }
}
