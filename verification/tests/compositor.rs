use vibe_core::compositor::{split_paragraphs, split_words, Compositor};

fn reference_wrap(text: &str, max: usize) -> Vec<String> {
    let mut lines = Vec::new();
    for paragraph in text.split('\n') {
        let mut current_line = String::new();
        for word in paragraph.split_whitespace() {
            let test_line = if current_line.is_empty() {
                word.to_string()
            } else {
                format!("{} {}", current_line, word)
            };
            if test_line.chars().count() > max {
                if !current_line.is_empty() {
                    lines.push(current_line);
                }
                current_line = word.to_string();
            } else {
                current_line = test_line;
            }
        }
        if !current_line.is_empty() {
            lines.push(current_line);
        }
    }
    lines
}

#[test]
fn wrap_text_is_greedy() {
    let lines = Compositor::wrap_text("the quick brown fox jumps", |s: &str| s.chars().count() <= 10);
    assert_eq!(lines, vec!["the quick", "brown fox", "jumps"]);
}

#[test]
fn wrap_text_keeps_paragraphs_and_long_words() {
    let text = "\"A quote\"\n\u{2014} Author\n\nsupercalifragilistic word";
    for max in [0usize, 3, 8, 12, 40] {
        let got = Compositor::wrap_text(text, |s: &str| s.chars().count() <= max);
        assert_eq!(got, reference_wrap(text, max), "max {}", max);
    }
}

#[test]
fn splits_like_std() {
    for s in ["", "a\nb", "a\n", "\n\n", " x  y\tz "] {
        let p: Vec<&str> = s.split('\n').collect();
        assert_eq!(split_paragraphs(s), p);
        let w: Vec<&str> = s.split_whitespace().collect();
        assert_eq!(split_words(s), w);
    }
}

#[test]
fn wrapped_lines_keep_words_and_fit() {
    let text = "Stay hungry, stay foolish.\n\u{2014} Steve Jobs   \n\n  extraordinarily long";
    for max in [1usize, 6, 15, 100] {
        let lines = Compositor::wrap_text(text, |s: &str| s.chars().count() <= max);
        let words: Vec<&str> = lines.iter().flat_map(|l| l.split_whitespace()).collect();
        let expected: Vec<&str> = text.split_whitespace().collect();
        assert_eq!(words, expected);
        for line in &lines {
            if line.split_whitespace().count() > 1 {
                assert!(line.chars().count() <= max, "{:?} with max {}", line, max);
            }
        }
    }
}

#[test]
fn wrapped_lines_are_single_spaced_and_greedy() {
    let paragraph = "  one two   three\tfour five six seven  ";
    for max in [1usize, 4, 9, 13, 100] {
        let lines = Compositor::wrap_text(paragraph, |s: &str| s.chars().count() <= max);
        for line in &lines {
            assert!(!line.is_empty());
            assert_eq!(*line, line.split_whitespace().collect::<Vec<_>>().join(" "));
        }
        for pair in lines.windows(2) {
            let next_word = pair[1].split_whitespace().next().unwrap();
            let longer = format!("{} {}", pair[0], next_word);
            assert!(longer.chars().count() > max, "{:?} could take {:?}", pair[0], next_word);
        }
    }
}
