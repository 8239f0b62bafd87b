use lrclib::text::collapse_whitespace;

fn by_words(s: &str) -> String {
    s.split_whitespace().collect::<Vec<_>>().join(" ")
}

#[test]
fn white_space_is_collapsed() {
    assert_eq!(collapse_whitespace(""), "");
    assert_eq!(collapse_whitespace(" \t\n"), "");
    assert_eq!(collapse_whitespace("a"), "a");
    assert_eq!(collapse_whitespace("  a \u{3000}\u{85} bc\u{a0}d "), "a bc d");
}

#[test]
fn collapsing_twice_changes_nothing() {
    for s in ["", " a  b ", "\u{2003}x\u{2028}y"] {
        let once = collapse_whitespace(s);
        assert_eq!(collapse_whitespace(&once), once);
        assert_eq!(once, by_words(s));
    }
}

#[test]
fn every_character_is_told_apart() {
    let all: Vec<char> = ('\0'..=char::MAX).collect();
    for part in all.chunks(4096) {
        let mut s = String::new();
        for c in part {
            s.push('a');
            s.push(*c);
        }
        assert_eq!(collapse_whitespace(&s), by_words(&s));
    }
}

#[test]
fn white_space_is_what_unicode_lists() {
    let listed: Vec<char> = ('\0'..=char::MAX).filter(|c| c.is_whitespace()).collect();
    let mut expected: Vec<char> = ('\u{9}'..='\u{d}').collect();
    expected.extend([' ', '\u{85}', '\u{a0}', '\u{1680}']);
    expected.extend('\u{2000}'..='\u{200a}');
    expected.extend(['\u{2028}', '\u{2029}', '\u{202f}', '\u{205f}', '\u{3000}']);
    assert_eq!(listed, expected);
}
