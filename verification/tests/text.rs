use authenticate_ssh_key::text::{
    chars_of, decimal_text, is_whitespace, join_from, same, same_bytes, split_lines, split_words,
    text_of, trim, trim_start, trim_trailing,
};

const TEXTS: [&str; 14] = [
    "",
    " ",
    "a",
    "  a  b\tc\r\n",
    "\u{a0}x\u{3000}y\u{2028}",
    "one\ntwo\r\nthree\rfour\n",
    "one\n\n\ntwo",
    "\n",
    "\r\n",
    "\r",
    "a\r",
    "a\r\r\n",
    "a\u{200b}b \u{1680}c",
    "SHA256:abc==",
];

fn texts_of(slices: &[&[char]]) -> Vec<String> {
    slices.iter().map(|slice| text_of(slice)).collect()
}

#[test]
fn white_space_is_what_unicode_says_it_is() {
    for c in '\0'..=char::MAX {
        assert_eq!(is_whitespace(c), c.is_whitespace(), "{c:?}");
    }
}

#[test]
fn words_are_split_at_white_space() {
    for text in TEXTS {
        let words: Vec<&str> = text.split_whitespace().collect();
        assert_eq!(texts_of(&split_words(&chars_of(text))), words, "{text:?}");
    }
}

#[test]
fn lines_end_at_line_feeds() {
    for text in TEXTS {
        let lines: Vec<&str> = text.lines().collect();
        assert_eq!(texts_of(&split_lines(&chars_of(text))), lines, "{text:?}");
    }
    assert_eq!(texts_of(&split_lines(&chars_of("a\r\n\nb"))), ["a", "", "b"]);
}

#[test]
fn trimming_takes_white_space_off_both_ends() {
    for text in TEXTS {
        let chars = chars_of(text);
        assert_eq!(text_of(trim(&chars)), text.trim(), "{text:?}");
        assert_eq!(text_of(trim_start(&chars)), text.trim_start(), "{text:?}");
        assert_eq!(
            text_of(trim_trailing(&chars, '=')),
            text.trim_end_matches('='),
            "{text:?}"
        );
    }
    assert_eq!(text_of(trim_trailing(&chars_of("a=b=="), '=')), "a=b");
    assert_eq!(text_of(trim_trailing(&chars_of("==="), '=')), "");
}

#[test]
fn joined_words_are_split_into_the_same_words() {
    let chars = chars_of(" one  two\tthree ");
    let words = split_words(&chars);

    assert_eq!(join_from(&words, 0), "one two three");
    assert_eq!(join_from(&words, 2), "three");
    assert_eq!(join_from(&words, 3), "");
    let again = chars_of("one two three");
    assert_eq!(texts_of(&split_words(&again)), texts_of(&words));
}

#[test]
fn numbers_are_written_in_decimal() {
    for n in [0usize, 1, 9, 10, 99, 100, 1234, 65_535, usize::MAX] {
        assert_eq!(decimal_text(n), n.to_string());
    }
}

#[test]
fn texts_and_bytes_are_the_same_only_where_they_are_equal() {
    assert!(same("ssh-rsa", "ssh-rsa"));
    assert!(!same("ssh-rsa", "ssh-rsb"));
    assert!(!same("ssh-rsa", "ssh-rsa "));
    assert!(same("", ""));
    assert!(same_bytes(&[1, 2], &[1, 2]));
    assert!(!same_bytes(&[1, 2], &[1]));
    assert!(!same_bytes(&[1, 2], &[1, 3]));
}
