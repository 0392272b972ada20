use carriers::normalize::{find_note, strip_note};

fn start(s: &str) -> usize {
    find_note(&s.chars().collect())
}

fn texts(alphabet: &[char], longest: usize) -> Vec<String> {
    let mut all = vec![String::new()];
    let mut last = vec![String::new()];
    for _ in 0..longest {
        let mut next = Vec::new();
        for text in &last {
            for c in alphabet {
                let mut longer = text.clone();
                longer.push(*c);
                next.push(longer);
            }
        }
        all.extend(next.iter().cloned());
        last = next;
    }
    all
}

fn ends_in_note(text: &str) -> bool {
    text.ends_with("\\n") || (text.ends_with(')') && text.contains('('))
}

#[test]
fn annotation_is_cut_off_with_the_whitespace_before_it() {
    assert_eq!(strip_note("Telia (1)"), "Telia");
    assert_eq!(strip_note("Telia   (note)"), "Telia");
    assert_eq!(strip_note("Telia(2)"), "Telia");
    assert_eq!(strip_note("Telia\t(2)"), "Telia");
    assert_eq!(strip_note("Telia \u{a0} (2)"), "Telia");
    assert_eq!(strip_note("(all)"), "");
    assert_eq!(strip_note("  (all)"), "");
    assert_eq!(strip_note("Ré (é)"), "Ré");
}

#[test]
fn annotation_may_hold_anything() {
    assert_eq!(strip_note("Telia (ex Sonera)"), "Telia");
    assert_eq!(strip_note("Telia (two  words, and\tmore)"), "Telia");
    assert_eq!(strip_note("Telia ()"), "Telia");
    assert_eq!(strip_note("Telia (a\\nb)"), "Telia");
    assert_eq!(strip_note("Telia (a) b)"), "Telia");
}

#[test]
fn escaped_line_break_is_cut_off() {
    assert_eq!(strip_note("Finland\\n"), "Finland");
    assert_eq!(strip_note("Finland\\\\\\n"), "Finland");
    assert_eq!(strip_note("\\n"), "");
    assert_eq!(strip_note("Finland \\n"), "Finland ");
}

#[test]
fn notes_are_cut_until_none_is_left() {
    assert_eq!(strip_note("x\\n\\n"), "x");
    assert_eq!(strip_note("A (b) (c)"), "A");
    assert_eq!(strip_note("A (b)(c)"), "A");
    assert_eq!(strip_note("A (two words) (c)"), "A");
    assert_eq!(strip_note("A (b)\\n"), "A");
    assert_eq!(strip_note("A\\n (b)"), "A");
    assert_eq!(strip_note("A (b)\\n (c)\\\\n"), "A");
}

#[test]
fn annotation_starts_at_the_last_bracket_that_opens() {
    assert_eq!(strip_note("Vodafone (UK) Ltd (2)"), "Vodafone (UK) Ltd");
    assert_eq!(strip_note("A (b (c))"), "A (b");
    assert_eq!(strip_note("A ((c)"), "A (");
}

#[test]
fn text_without_note_is_kept() {
    for text in [
        "Operator X", "", "n", ")", "a)", "Finland\n", "Telia (1) ", "Telia (1)\t", "Telia [1]",
        "Telia\\m", "Telia (", "Telia (1", "Telia (a(b)c", "Vodafone (UK) Ltd", "\\", "\\nx",
    ] {
        assert_eq!(strip_note(text), text);
    }
}

#[test]
fn what_is_left_ends_in_no_note() {
    let alphabet = ['a', 'n', ' ', '(', ')', '\\', '\t', 'é'];
    for text in texts(&alphabet, 6) {
        let cleaned = strip_note(&text);
        assert!(text.starts_with(&cleaned), "{:?}", text);
        assert!(!ends_in_note(&cleaned), "{:?}", text);
        if !ends_in_note(&text) {
            assert_eq!(cleaned, text);
        } else {
            assert!(cleaned.len() < text.len(), "{:?}", text);
        }
        assert_eq!(strip_note(&cleaned), cleaned);
    }
}

#[test]
fn note_starts_with_its_whitespace_or_backslashes() {
    assert_eq!(start("Telia (1)"), 5);
    assert_eq!(start("Telia (ex Sonera)"), 5);
    assert_eq!(start("Telia"), 5);
    assert_eq!(start(""), 0);
    assert_eq!(start("(x"), 2);
    assert_eq!(start("(x)"), 0);
    assert_eq!(start("ab\\\\n"), 2);
    assert_eq!(start("a (b) c"), 7);
    assert_eq!(start("a (b) (c)"), 5);
    assert_eq!(start("é  (b)"), 1);
}
