use sfen::text::{chars_of, digit_of, push_chars, push_nat, spells, split_on, tokenize};

fn chars(s: &str) -> Vec<char> {
    s.chars().collect()
}

fn strings(words: Vec<Vec<char>>) -> Vec<String> {
    words.into_iter().map(|w| w.into_iter().collect()).collect()
}

#[test]
fn characters_of_a_string() {
    assert_eq!(chars_of(""), Vec::<char>::new());
    assert_eq!(chars_of("7g7f"), vec!['7', 'g', '7', 'f']);
    assert_eq!(chars_of("\u{6b69} +"), vec!['\u{6b69}', ' ', '+']);
}

#[test]
fn spelling() {
    assert!(spells(&chars("moves"), "moves"));
    assert!(!spells(&chars("move"), "moves"));
    assert!(!spells(&chars("movez"), "moves"));
    assert!(!spells(&chars("Moves"), "moves"));
    assert!(spells(&chars(""), ""));
    assert!(!spells(&chars(""), "-"));
}

#[test]
fn words_are_what_the_standard_splitter_gives() {
    let texts = [
        "",
        " ",
        "a",
        " a",
        "a ",
        "a b",
        "a  b",
        "\ta\nb\rc\x0Cd e",
        "  sfen   9/9 b\t-\n1  ",
        "a\u{b}b c",
        "a\u{a0}b c",
        "\u{3000}x",
    ];
    for text in texts {
        let expected: Vec<String> = text.split_ascii_whitespace().map(String::from).collect();
        assert_eq!(strings(tokenize(&chars(text))), expected, "{:?}", text);
    }
}

#[test]
fn parts_are_what_the_standard_splitter_gives() {
    let texts = ["", "/", "a", "a/b", "/a", "a/", "a//b", "9/9/9", "////////", "a b/c"];
    for text in texts {
        let expected: Vec<String> = text.split('/').map(String::from).collect();
        assert_eq!(strings(split_on(&chars(text), '/')), expected, "{:?}", text);
    }
}

#[test]
fn digits() {
    let all: String = (0..10u8).map(digit_of).collect();
    assert_eq!(all, "0123456789");
}

#[test]
fn decimal_text_is_put_at_the_end() {
    let mut s = String::from("n=");
    push_nat(&mut s, 0);
    assert_eq!(s, "n=0");
    push_nat(&mut s, 4294967295);
    assert_eq!(s, "n=04294967295");
    for n in [1u32, 9, 10, 11, 99, 100, 101, 255, 256, 1000, 65535, 2147483648] {
        let mut s = String::new();
        push_nat(&mut s, n);
        assert_eq!(s, n.to_string());
    }
}

#[test]
fn characters_are_put_at_the_end() {
    let mut s = String::from("move: ");
    push_chars(&mut s, &chars("7g7f"));
    assert_eq!(s, "move: 7g7f");
    push_chars(&mut s, &chars(""));
    assert_eq!(s, "move: 7g7f");
}
