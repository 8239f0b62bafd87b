use lrclib::patterns::{PARENTHESES, SEPARATORS, WORD_CHARACTER};
use regex::Regex;

/// The length of the separator at `i`, told by hand.
fn separator_length(s: &[char], i: usize, word: &Regex) -> usize {
    let is_word = |c: char| word.is_match(&c.to_string());
    if s[i] == '&' || s[i] == '+' {
        return 1;
    }
    for w in ["and", "plus"] {
        let w: Vec<char> = w.chars().collect();
        let end = i + w.len();
        if end <= s.len()
            && (0..w.len()).all(|k| {
                s[i + k].to_ascii_lowercase() == w[k] || (w[k] == 's' && s[i + k] == '\u{17f}')
            })
            && (i == 0 || !is_word(s[i - 1]))
            && (end == s.len() || !is_word(s[end]))
        {
            return w.len();
        }
    }
    0
}

/// The length of the parenthesized part at `i`, told by hand.
fn parenthesized_length(s: &[char], i: usize) -> usize {
    if s[i] != '(' {
        return 0;
    }
    match s[i..].iter().position(|c| *c == ')') {
        Some(k) => k + 1,
        None => 0,
    }
}

fn replaced(s: &[char], by: &str, length: &dyn Fn(usize) -> usize) -> String {
    let mut out = String::new();
    let mut i = 0;
    while i < s.len() {
        let n = length(i);
        if n > 0 {
            out.push_str(by);
            i += n;
        } else {
            out.push(s[i]);
            i += 1;
        }
    }
    out
}

/// All texts of up to `n` of the pieces.
fn texts(pieces: &[&str], n: usize) -> Vec<String> {
    let mut all = vec![String::new()];
    let mut last = all.clone();
    for _ in 0..n {
        let mut next = Vec::new();
        for s in &last {
            for p in pieces {
                next.push(format!("{s}{p}"));
            }
        }
        all.extend(next.iter().cloned());
        last = next;
    }
    all
}

#[test]
fn separators_are_found_where_they_stand() {
    let pattern = Regex::new(SEPARATORS).unwrap();
    let word = Regex::new(WORD_CHARACTER).unwrap();
    let pieces = ["and", "PLUS", "plu\u{17f}", "&", "+", " ", "x", "_", "é", "\u{a0}", "-"];
    for text in texts(&pieces, 4) {
        let s: Vec<char> = text.chars().collect();
        let length = |i: usize| separator_length(&s, i, &word);
        assert_eq!(pattern.is_match(&text), (0..s.len()).any(|i| length(i) > 0), "{text}");
        assert_eq!(pattern.replace_all(&text, " and "), replaced(&s, " and ", &length), "{text}");
    }
}

#[test]
fn parentheses_are_found_where_they_stand() {
    let pattern = Regex::new(PARENTHESES).unwrap();
    for text in texts(&["(", ")", "x", " ", "\n"], 6) {
        let s: Vec<char> = text.chars().collect();
        let length = |i: usize| parenthesized_length(&s, i);
        assert_eq!(pattern.is_match(&text), (0..s.len()).any(|i| length(i) > 0), "{text}");
        assert_eq!(pattern.replace_all(&text, " "), replaced(&s, " ", &length), "{text}");
    }
}

#[test]
fn word_characters_are_told_apart() {
    let word = Regex::new(WORD_CHARACTER).unwrap();
    for code in 0..128u8 {
        let c = code as char;
        assert_eq!(word.is_match(&c.to_string()), c.is_ascii_alphanumeric() || c == '_');
    }
    assert!(word.is_match("\u{17f}"));
    for c in ('\0'..=char::MAX).filter(|c| c.is_whitespace()) {
        assert!(!word.is_match(&c.to_string()));
    }
}
