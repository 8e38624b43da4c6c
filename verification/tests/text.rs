use mail_forwarder::text::{is_whitespace, split_whitespace};

#[test]
fn whitespace_agrees_with_the_standard_library_on_every_character() {
    let mut code: u32 = 0;
    while code <= 0x10FFFF {
        if let Some(c) = char::from_u32(code) {
            assert_eq!(is_whitespace(c), c.is_whitespace(), "U+{:04X}", code);
        }
        code += 1;
    }
}

#[test]
fn whitespace_examples() {
    assert!(is_whitespace(' '));
    assert!(is_whitespace('\t'));
    assert!(is_whitespace('\n'));
    assert!(is_whitespace('\u{00A0}'));
    assert!(is_whitespace('\u{3000}'));
    assert!(!is_whitespace('a'));
    assert!(!is_whitespace('@'));
    assert!(!is_whitespace('\u{200B}'));
}

#[test]
fn split_of_nothing_is_empty() {
    assert_eq!(split_whitespace(""), Vec::<String>::new());
    assert_eq!(split_whitespace("   \t\n "), Vec::<String>::new());
}

#[test]
fn split_keeps_order_and_drops_every_run_of_whitespace() {
    assert_eq!(split_whitespace("a"), vec!["a".to_string()]);
    assert_eq!(split_whitespace("  a  "), vec!["a".to_string()]);
    assert_eq!(
        split_whitespace("one two\tthree\n\nfour"),
        vec!["one".to_string(), "two".to_string(), "three".to_string(), "four".to_string()]
    );
}

#[test]
fn split_does_not_depend_on_the_length_of_a_gap() {
    let expected = vec!["a@x.com".to_string(), "b@y.com".to_string()];
    let mut gap = String::from(" ");
    for _ in 0..6 {
        let list = format!("a@x.com{}b@y.com", gap);
        assert_eq!(split_whitespace(&list), expected);
        gap.push(' ');
        gap.push('\t');
    }
}

#[test]
fn split_agrees_with_the_standard_library() {
    let samples = [
        "",
        " ",
        "a",
        " a",
        "a ",
        "a b",
        "a@x.com   b@y.com",
        "\u{00A0}x\u{2003}y\u{3000}",
        "tab\tseparated\tlist",
        "caf\u{e9} \u{1F600} z",
        "\n\nlines\r\nof\ntext\n",
    ];
    for sample in samples {
        let expected: Vec<String> = sample.split_whitespace().map(String::from).collect();
        assert_eq!(split_whitespace(sample), expected, "{:?}", sample);
    }
}
