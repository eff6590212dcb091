use lark_notify::keywords::{char_is_whitespace, parse_keywords, requested_keywords};

fn list(entries: &[&str]) -> Vec<String> {
    entries.iter().map(|entry| entry.to_string()).collect()
}

#[test]
fn entries_are_split_on_commas() {
    assert_eq!(parse_keywords("a,b,c"), list(&["a", "b", "c"]));
    assert_eq!(parse_keywords("World"), list(&["World"]));
}

#[test]
fn entries_are_trimmed() {
    assert_eq!(parse_keywords(" a , b\t,\nc "), list(&["a", "b", "c"]));
}

#[test]
fn white_space_inside_an_entry_stays() {
    assert_eq!(parse_keywords(" disk full , cpu  load "), list(&["disk full", "cpu  load"]));
}

#[test]
fn empty_entries_are_kept() {
    assert_eq!(parse_keywords(""), list(&[""]));
    assert_eq!(parse_keywords(","), list(&["", ""]));
    assert_eq!(parse_keywords("a,,b"), list(&["a", "", "b"]));
    assert_eq!(parse_keywords("a,"), list(&["a", ""]));
    assert_eq!(parse_keywords(" , "), list(&["", ""]));
    assert_eq!(parse_keywords("   "), list(&[""]));
}

#[test]
fn order_and_duplicates_are_kept() {
    assert_eq!(parse_keywords("X, X,b ,X"), list(&["X", "X", "b", "X"]));
}

#[test]
fn unicode_white_space_is_trimmed() {
    assert_eq!(
        parse_keywords("\u{3000}检查\u{a0},\u{2003}down\u{2028}"),
        list(&["检查", "down"])
    );
}

#[test]
fn parsing_agrees_with_split_and_trim() {
    let inputs = [
        "",
        "a",
        " a , b ",
        ",,",
        "x,\u{85}y\u{1680},\u{200a}z\u{205f}",
        "\u{200b}a\u{200b},b",
        "\u{1c}a,b\u{1f}",
        "\u{feff}a , \u{180e}b",
    ];
    for input in inputs {
        let expected: Vec<String> = input.split(',').map(|s| s.trim().to_string()).collect();
        assert_eq!(parse_keywords(input), expected);
    }
}

#[test]
fn white_space_is_what_the_character_type_says() {
    let mut code: u32 = 0;
    while code <= 0x10FFFF {
        if let Some(c) = char::from_u32(code) {
            assert_eq!(char_is_whitespace(c), c.is_whitespace());
        }
        code += 1;
    }
}

#[test]
fn no_list_gives_no_keywords() {
    assert_eq!(requested_keywords(None), Vec::<String>::new());
}

#[test]
fn a_given_list_is_parsed() {
    assert_eq!(requested_keywords(Some("World, Test")), list(&["World", "Test"]));
    assert_eq!(requested_keywords(Some("")), list(&[""]));
}
