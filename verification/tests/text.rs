use hks_shell::text::{
    chars_of, contains_control, copy_list, copy_option, join_lines, last_place, same_text,
    split_words, text_between, to_lower_ascii, white_space,
};

fn owned(words: &[&str]) -> Vec<String> {
    words.iter().map(|word| word.to_string()).collect()
}

#[test]
fn white_space_is_that_of_unicode() {
    for code in 0..=0x10_ffffu32 {
        if let Some(c) = char::from_u32(code) {
            assert_eq!(white_space(c), c.is_whitespace(), "{code:x}");
        }
    }
}

#[test]
fn control_codes_are_those_of_unicode() {
    for code in 0..=0x10_ffffu32 {
        if let Some(c) = char::from_u32(code) {
            assert_eq!(contains_control(&format!("a{c}b")), c.is_control(), "{code:x}");
        }
    }
    assert!(!contains_control(""));
    assert!(contains_control("\u{7f}"));
}

#[test]
fn words_are_split_at_white_space() {
    assert_eq!(split_words("  env  A=1\tprog \u{3000}--x\n"), owned(&["env", "A=1", "prog", "--x"]));
    assert_eq!(split_words(""), owned(&[]));
    assert_eq!(split_words(" \t "), owned(&[]));
    for line in ["a", " a", "a ", "é à\u{85}ü", "one two  three"] {
        let expected: Vec<String> = line.split_whitespace().map(str::to_string).collect();
        assert_eq!(split_words(line), expected);
    }
}

#[test]
fn words_are_solid_and_keep_the_text() {
    let text = " fire fox\t%U  ";
    let words = split_words(text);
    assert!(words.iter().all(|word| !word.is_empty() && !word.chars().any(char::is_whitespace)));
    let solid: String = text.chars().filter(|c| !c.is_whitespace()).collect();
    assert_eq!(words.concat(), solid);
}

#[test]
fn only_ascii_capitals_are_lowered() {
    assert_eq!(to_lower_ascii("SvGZ"), "svgz");
    assert_eq!(to_lower_ascii("ÄaZ[@`"), "Äaz[@`");
    let all: String = (0..0x250u32).filter_map(char::from_u32).collect();
    assert_eq!(to_lower_ascii(&all), all.to_ascii_lowercase());
}

#[test]
fn lines_are_joined_with_line_feeds() {
    assert_eq!(join_lines(&owned(&[])), "");
    assert_eq!(join_lines(&owned(&["one"])), "one");
    assert_eq!(join_lines(&owned(&["one", "", "three"])), "one\n\nthree");
    assert_eq!(join_lines(&owned(&["", ""])), "\n");
}

#[test]
fn copies_hold_the_same() {
    assert_eq!(copy_list(&owned(&["a", "b"])), owned(&["a", "b"]));
    assert_eq!(copy_option(&Some("x".to_string())), Some("x".to_string()));
    assert_eq!(copy_option(&None), None);
    assert!(same_text("svg", "svg"));
    assert!(!same_text("svg", "svgz"));
}

#[test]
fn characters_are_found_from_the_end() {
    let chars = chars_of("a/é/b");
    assert_eq!(last_place(&chars, 5, '/'), Some(3));
    assert_eq!(last_place(&chars, 3, '/'), Some(1));
    assert_eq!(last_place(&chars, 1, '/'), None);
    assert_eq!(last_place(&chars, 0, 'a'), None);
    assert_eq!(text_between(&chars, 2, 4), "é/");
    assert_eq!(text_between(&chars, 5, 5), "");
}
