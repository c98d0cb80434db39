use bestftp::search::{
    is_noise, is_separator, matches_group, matches_lowered, matches_option, matches_query,
    Separator,
};
use bestftp::text::chars_of;

#[test]
fn groups_parted_by_space_must_all_match() {
    assert!(matches_query("alpha beta.txt", "a b"));
    assert!(matches_query("ab", "a b"));
    assert!(matches_query("ba", "a b"));
    assert!(!matches_query("aaa", "a b"));
    assert!(!matches_query("bbb", "a b"));
    assert!(!matches_query("xyz", "a b"));
}

#[test]
fn options_parted_by_bar_or_comma_need_one_match() {
    assert!(matches_query("apple", "a|b"));
    assert!(matches_query("bob", "a|b"));
    assert!(matches_query("cab", "a|b"));
    assert!(!matches_query("xyz", "a|b"));
    assert!(matches_query("notes.md", ".txt,.md"));
    assert!(!matches_query("notes.rs", ".txt,.md"));
    assert!(matches_query("bob", "|||b"));
    assert!(!matches_query("bob", "|"));
    assert!(!matches_query("bob", ",|,"));
}

#[test]
fn an_option_with_a_dot_in_front_matches_the_end_only() {
    assert!(matches_query("notes.txt", ".txt"));
    assert!(!matches_query("notes.txt.bak", ".txt"));
    assert!(!matches_query("txt", ".txt"));
    assert!(matches_query(".txt", ".txt"));
    assert!(matches_query("notes.txt.bak", "txt"));
}

#[test]
fn capitals_and_small_letters_are_the_same() {
    assert!(matches_query("README.TXT", ".txt"));
    assert!(matches_query("readme.txt", "README"));
    assert!(matches_query("Straße.PDF", "STRASSE|straße"));
    assert!(matches_query("ÉCOLE", "école"));
}

#[test]
fn the_empty_query_shows_everything_but_noise() {
    assert!(matches_query("anything", ""));
    assert!(matches_query("", ""));
    assert!(matches_query(".gitignore", ""));
    for name in [".git", "node_modules", "target", "dist", ".DS_Store"] {
        assert!(!matches_query(name, ""));
    }
}

#[test]
fn a_blank_query_shows_everything_but_noise() {
    assert!(matches_query("anything", "   "));
    assert!(matches_query("anything", "\t\u{3000}"));
    assert!(!matches_query(".git", "   "));
}

#[test]
fn noise_is_never_shown() {
    for name in [".git", "node_modules", "target", "dist", ".DS_Store"] {
        assert!(is_noise(name));
        assert!(!matches_query(name, "t"));
        assert!(!matches_query(name, "o|i|e|S"));
    }
    assert!(!is_noise(".GIT"));
    assert!(!is_noise("targets"));
    assert!(matches_query("targets", "target"));
    assert!(!matches_query(".gitignore", ".git"));
    assert!(matches_query(".gitignore", "git"));
    assert!(matches_query("repo.git", ".git"));
}

#[test]
fn mixed_queries() {
    assert!(matches_query("holiday-2024.JPG", "holiday .jpg|.png"));
    assert!(matches_query("holiday-2024.png", "holiday .jpg|.png"));
    assert!(!matches_query("holiday-2024.gif", "holiday .jpg|.png"));
    assert!(!matches_query("work-2024.jpg", "holiday .jpg|.png"));
    assert!(matches_query("a b", "  a \t b  "));
}

#[test]
fn lowered_matching_takes_its_arguments_as_they_are() {
    assert!(matches_lowered("abc", "b"));
    assert!(!matches_lowered("abc", "B"));
    assert!(!matches_lowered("ABC", "b"));
    assert!(matches_lowered("abc", ""));
    assert!(matches_lowered("", ""));
    assert!(!matches_lowered("", "a"));
}

#[test]
fn options_and_groups_on_characters() {
    let name = chars_of("report.final.txt");
    assert!(matches_option(&name, &chars_of(".txt")));
    assert!(!matches_option(&name, &chars_of(".final")));
    assert!(matches_option(&name, &chars_of("final")));
    assert!(!matches_option(&name, &chars_of("")));
    assert!(matches_group(&name, &chars_of(".doc|.txt")));
    assert!(!matches_group(&name, &chars_of(".doc|.pdf")));
    assert!(!matches_group(&name, &chars_of("")));
}

#[test]
fn what_parts_groups_and_options() {
    for c in [' ', '\t', '\n', '\u{a0}', '\u{2003}', '\u{3000}'] {
        assert!(is_separator(Separator::Space, c));
        assert!(!is_separator(Separator::Choice, c));
    }
    for c in ['|', ','] {
        assert!(is_separator(Separator::Choice, c));
        assert!(!is_separator(Separator::Space, c));
    }
    for c in ['a', '.', ';', '/', '\u{200b}'] {
        assert!(!is_separator(Separator::Space, c));
        assert!(!is_separator(Separator::Choice, c));
    }
}

#[test]
fn runs_of_separators_count_as_one() {
    assert!(matches_lowered("ab", "a \t\u{3000} b"));
    assert!(matches_lowered("b", "a||,b"));
    assert!(!matches_lowered("c", "a||,b"));
    assert!(matches_lowered("xa", "|a| x,"));
    assert!(!matches_lowered("x", "|a| x,"));
}

/// The same matching written with the text functions of the standard
/// library.
fn with_std(name: &str, query: &str) -> bool {
    if [".git", "node_modules", "target", "dist", ".DS_Store"].contains(&name) {
        return false;
    }
    if query.is_empty() {
        return true;
    }
    let name_lower = name.to_lowercase();
    let query_lower = query.to_lowercase();
    query_lower.split_whitespace().all(|group| {
        group.split(|c| c == '|' || c == ',').filter(|s| !s.is_empty()).any(|option| {
            if option.starts_with('.') {
                name_lower.ends_with(option)
            } else {
                name_lower.contains(option)
            }
        })
    })
}

#[test]
fn agrees_with_the_matching_by_the_standard_library() {
    let alphabet: Vec<char> = "aAbB..tTxX  ||,,-_1\t\u{3000}\u{e9}\u{c9}\u{df}\u{3a3}\u{130}g"
        .chars()
        .collect();
    let names = ["a.txt", "B.TXT", ".git", "target", "dist", "\u{c9}t\u{e9}.Tab", "ab", "", " ", "x|y"];
    let mut seed = 0x9E37_79B9_7F4A_7C15u64;
    let mut next = move || {
        seed ^= seed << 13;
        seed ^= seed >> 7;
        seed ^= seed << 17;
        seed
    };
    for _ in 0..20_000 {
        let mut query = String::new();
        for _ in 0..next() % 9 {
            query.push(alphabet[(next() % alphabet.len() as u64) as usize]);
        }
        let mut name = String::new();
        if next() % 2 == 0 {
            name.push_str(names[(next() % names.len() as u64) as usize]);
        } else {
            for _ in 0..next() % 7 {
                name.push(alphabet[(next() % alphabet.len() as u64) as usize]);
            }
        }
        assert_eq!(matches_query(&name, &query), with_std(&name, &query), "{:?} in {:?}", query, name);
    }
}
