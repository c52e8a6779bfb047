use cali::text::{
    chars_of, contains_chars, contains_text, copy_text, fold_char, folded_chars_of, same_text,
    trim_text,
};

#[test]
fn same_text_compares_character_for_character() {
    assert!(same_text("", ""));
    assert!(same_text("test calendar", "test calendar"));
    assert!(!same_text("test calendar", "test calendar "));
    assert!(!same_text("Test", "test"));
    assert!(!same_text("abc", "abd"));
    assert!(!same_text("abc", "ab"));
    assert!(same_text("caf\u{e9} \u{1f4c5}", "caf\u{e9} \u{1f4c5}"));
    assert!(!same_text("caf\u{e9}", "cafe\u{301}"));
}

#[test]
fn chars_of_gives_the_characters_in_order() {
    assert_eq!(chars_of(""), Vec::<char>::new());
    assert_eq!(chars_of("ab c"), vec!['a', 'b', ' ', 'c']);
    assert_eq!(chars_of("\u{e9}\u{1f4c5}x"), vec!['\u{e9}', '\u{1f4c5}', 'x']);
}

#[test]
fn copy_text_gives_an_equal_text() {
    assert_eq!(copy_text(""), "");
    assert_eq!(copy_text("new_start"), "new_start");
}

#[test]
fn contains_text_finds_a_run_at_any_position() {
    assert!(contains_text("test event 1", "test event"));
    assert!(contains_text("test event 1", "event 1"));
    assert!(contains_text("test event 1", "t e"));
    assert!(contains_text("test event 1", "test event 1"));
    assert!(contains_text("test event", "tes"));
    assert!(contains_text("aab", "ab"));
    assert!(contains_text("abababc", "ababc"));
}

#[test]
fn contains_text_rejects_what_does_not_occur() {
    assert!(!contains_text("test event 1", "test event 2"));
    assert!(!contains_text("test event", "test event 1"));
    assert!(!contains_text("abc", "ac"));
    assert!(!contains_text("abc", "cb"));
    assert!(!contains_text("", "a"));
}

#[test]
fn contains_text_finds_the_empty_text_everywhere() {
    assert!(contains_text("", ""));
    assert!(contains_text("anything", ""));
}

#[test]
fn contains_text_sets_the_case_of_ascii_letters_aside() {
    assert!(contains_text("Test Event", "test"));
    assert!(contains_text("Test Event", "Test"));
    assert!(contains_text("test event", "EVENT"));
    assert!(contains_text("TeSt EvEnT", "sT eV"));
    assert!(!contains_text("Test Event", "tset"));
}

#[test]
fn contains_text_tells_other_letters_apart_by_case() {
    assert!(contains_text("\u{c9}t\u{e9}", "\u{c9}T"));
    assert!(!contains_text("\u{c9}t\u{e9}", "\u{e9}t"));
    assert!(!contains_text("stra\u{df}e", "STRASSE"));
    // '@' and '`', '[' and '{' stand next to the letters and are no letters
    assert!(!contains_text("@[", "`{"));
    assert!(!contains_text("`{", "@["));
}

#[test]
fn fold_char_lowers_ascii_letters_alone() {
    assert_eq!(fold_char('A'), 'a');
    assert_eq!(fold_char('M'), 'm');
    assert_eq!(fold_char('Z'), 'z');
    for c in ['a', 'z', '0', ' ', '@', '[', '`', '{', '\u{c9}', '\u{e9}', '\u{1f4c5}', '\u{0}'] {
        assert_eq!(fold_char(c), c);
    }
}

#[test]
fn fold_char_agrees_with_the_standard_library() {
    for code in 0u32..0x300 {
        let c = char::from_u32(code).unwrap();
        assert_eq!(fold_char(c), c.to_ascii_lowercase());
    }
}

#[test]
fn folded_chars_of_gives_the_characters_without_their_case() {
    assert_eq!(folded_chars_of(""), Vec::<char>::new());
    assert_eq!(folded_chars_of("Ab-C\u{c9}"), vec!['a', 'b', '-', 'c', '\u{c9}']);
}

#[test]
fn contains_chars_compares_character_for_character() {
    let hay = chars_of("Test Event");
    assert!(contains_chars(&hay, &chars_of("Test")));
    assert!(contains_chars(&hay, &chars_of("t E")));
    assert!(contains_chars(&hay, &chars_of("")));
    assert!(contains_chars(&hay, &chars_of("Test Event")));
    assert!(!contains_chars(&hay, &chars_of("test")));
    assert!(!contains_chars(&hay, &chars_of("Test Event ")));
    assert!(contains_chars(&Vec::new(), &Vec::new()));
    assert!(!contains_chars(&Vec::new(), &chars_of("a")));
}

#[test]
fn contains_text_compares_whole_characters() {
    assert!(contains_text("r\u{e9}union \u{1f4c5}", "\u{e9}un"));
    assert!(contains_text("r\u{e9}union \u{1f4c5}", "\u{1f4c5}"));
    assert!(!contains_text("r\u{e9}union", "e"));
    // '%' and '_' stand for themselves
    assert!(!contains_text("test event", "t%t"));
    assert!(!contains_text("test event", "t_st"));
    assert!(contains_text("100% sure", "0% s"));
}

#[test]
fn trim_text_strips_white_space_at_both_ends() {
    assert_eq!(trim_text("  work \n"), "work");
    assert_eq!(trim_text("work\n"), "work");
    assert_eq!(trim_text("\t my calendar\r\n"), "my calendar");
    assert_eq!(trim_text("work"), "work");
}

#[test]
fn trim_text_keeps_white_space_inside() {
    assert_eq!(trim_text(" a  b\tc "), "a  b\tc");
}

#[test]
fn trim_text_of_white_space_alone_is_empty() {
    assert_eq!(trim_text(""), "");
    assert_eq!(trim_text(" \n\t "), "");
}

#[test]
fn trim_text_knows_the_white_space_of_unicode() {
    assert_eq!(trim_text("\u{3000}\u{a0}caf\u{e9}\u{2003}"), "caf\u{e9}");
    // a zero-width space is no white space
    assert_eq!(trim_text("\u{200b}x "), "\u{200b}x");
}

#[test]
fn trim_text_agrees_with_the_standard_library() {
    let samples = [
        "",
        " ",
        "x",
        " x",
        "x ",
        " \u{85}x y\u{2028} ",
        "\u{1680}\u{1f4c5}\u{202f}",
        "\n\n default calendar \n",
    ];
    for sample in samples {
        assert_eq!(trim_text(sample), sample.trim());
    }
}
