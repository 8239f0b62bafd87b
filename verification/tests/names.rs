use lrclib::names::{
    artist_variants, normalize_artist, normalize_name, title_without_parentheses,
};

fn lower(s: &str) -> String {
    s.to_lowercase()
}

#[test]
fn artist_separator_variants() {
    assert_eq!(artist_variants("A & B"), vec!["A and B", "A plus B", "A + B"]);
    assert!(artist_variants("The Band").is_empty());
    assert!(artist_variants("A plus B").contains(&"A & B".to_string()));
    assert!(artist_variants("A+B").contains(&"A and B".to_string()));
}

#[test]
fn variants_keep_every_spelling_that_differs() {
    assert_eq!(artist_variants("A+B"), vec!["A and B", "A & B", "A plus B", "A + B"]);
    assert_eq!(artist_variants("A and B"), vec!["A & B", "A plus B", "A + B"]);
    assert_eq!(
        artist_variants("  A  AND B & C "),
        vec!["A and B and C", "A & B & C", "A plus B plus C", "A + B + C"]
    );
    assert_eq!(artist_variants("&"), vec!["and", "plus", "+"]);
}

#[test]
fn separators_are_words_of_their_own() {
    assert!(artist_variants("Andy Sandoval").is_empty());
    assert!(artist_variants("Surplus").is_empty());
    assert!(artist_variants("rock_and_roll").is_empty());
    assert!(artist_variants("éand").is_empty());
    assert!(artist_variants("").is_empty());
    assert_eq!(artist_variants("x-and-y")[1], "x- & -y");
    assert_eq!(artist_variants("A\u{a0}And\u{3000}B")[1], "A & B");
    // The long s is an s in another case.
    assert_eq!(artist_variants("A plu\u{17f} B")[0], "A and B");
}

#[test]
fn titles_lose_their_parentheses() {
    assert_eq!(
        title_without_parentheses("Song (Live) (Remastered)"),
        Some("Song".to_owned())
    );
    assert_eq!(title_without_parentheses("Song"), None);
    assert_eq!(title_without_parentheses("(Live)"), None);
    assert_eq!(title_without_parentheses("Song (Live"), None);
    assert_eq!(title_without_parentheses("Song ) ("), None);
    assert_eq!(title_without_parentheses("A (b (c) d) e"), Some("A d) e".to_owned()));
    assert_eq!(title_without_parentheses("A(b)C"), Some("A C".to_owned()));
    assert_eq!(title_without_parentheses("A (b\nc)"), Some("A".to_owned()));
    assert_eq!(title_without_parentheses("()(x"), Some("(x".to_owned()));
}

#[test]
fn a_stripped_title_is_not_stripped_again() {
    for title in ["Song (Live) (x)", "A (b (c) d) e", "a () b ) c ( d"] {
        let stripped = title_without_parentheses(title).unwrap();
        assert_ne!(stripped, title);
        assert_eq!(title_without_parentheses(&stripped), None);
    }
}

#[test]
fn names_are_compared_by_their_letters_and_digits() {
    assert_eq!(normalize_name("  Don't   STOP! (Now) 2 ", &lower), "don t stop now 2");
    assert_eq!(normalize_name("...", &lower), "");
    assert_eq!(normalize_name("Don\u{2019}t", &lower), "don t");
    assert_eq!(normalize_name("Ünïcode_Ⅷ", &lower), "ünïcode ⅷ");
    // What the name is prepared with is what is normalized.
    assert_eq!(normalize_name("anything", &|_: &str| "X-Y".to_owned()), "X Y");
}

#[test]
fn normalized_names_stay_as_they_are() {
    for name in ["A & B", "  x_y  z ", "Ünï (code)"] {
        let once = normalize_name(name, &lower);
        assert_eq!(normalize_name(&once, &lower), once);
    }
}

#[test]
fn separators_of_artists_count_as_the_same() {
    let expected = "earth wind and fire";
    for name in [
        "Earth, Wind & Fire",
        "Earth Wind and Fire",
        "EARTH WIND PLUS FIRE",
        "Earth Wind+Fire",
    ] {
        assert_eq!(normalize_artist(name, &lower), expected);
    }
    assert_eq!(normalize_artist("The Band", &lower), "the band");
}

#[test]
fn variants_name_the_same_artist() {
    for artist in ["A & B", "x and&y", "  Plus+ one", "and", "a-and-b plus c"] {
        let key = normalize_artist(artist, &lower);
        for variant in artist_variants(artist) {
            assert_eq!(normalize_artist(&variant, &lower), key);
            assert_ne!(variant, artist);
        }
    }
}

#[test]
fn ascii_letters_and_digits_are_kept() {
    for code in 0..128u8 {
        let c = code as char;
        let name = format!("a{c}b");
        let expected = if c.is_ascii_alphanumeric() {
            name.clone()
        } else {
            "a b".to_owned()
        };
        assert_eq!(normalize_name(&name, &|s: &str| s.to_owned()), expected);
    }
}

#[test]
fn marks_make_no_difference_to_artists() {
    for (a, b) in [
        ("Earth Wind & Fire", "Earth, Wind & Fire"),
        ("A plus B", "A & B"),
        ("A, and B", "A and B"),
        ("A! B", "A B"),
    ] {
        assert_eq!(normalize_artist(a, &lower), normalize_artist(b, &lower));
    }
}

#[test]
fn only_names_without_letters_and_digits_become_empty() {
    for c in '\0'..=char::MAX {
        let name = c.to_string();
        let same = |s: &str| s.to_owned();
        assert_eq!(normalize_name(&name, &same).is_empty(), !c.is_alphanumeric());
        assert!(!(c.is_whitespace() && c.is_alphanumeric()));
    }
}

#[test]
fn case_and_apostrophes_make_no_difference() {
    for (a, b) in [
        ("Don\u{2019}t Stop", "Don't Stop"),
        ("Time Is on Your Side", "Time Is On Your Side"),
        ("ROCK-n-Roll", "rock n roll"),
    ] {
        assert_eq!(normalize_name(a, &lower), normalize_name(b, &lower));
        assert_eq!(normalize_artist(a, &lower), normalize_artist(b, &lower));
    }
    // An apostrophe may also be left out.
    let bare = |s: &str| s.replace(['\'', '\u{2019}'], "");
    assert_eq!(normalize_name("Don\u{2019}t", &bare), "Dont");
    assert_eq!(normalize_name("Don't", &bare), "Dont");
}

#[test]
fn spacing_makes_no_difference() {
    assert_eq!(normalize_name(" a \t b", &lower), normalize_name("a b", &lower));
    assert_eq!(normalize_artist("A  &\u{3000}B", &lower), normalize_artist("A & B", &lower));
}
