use lark_notify::segment::{process_content_with_keywords, LarkTextContent};
use lark_notify::text::{chars_of, find_first, matches_at};

fn plain(text: &str) -> LarkTextContent {
    LarkTextContent { tag: "text".to_string(), text: text.to_string(), href: None }
}

fn highlight(text: &str) -> LarkTextContent {
    LarkTextContent { tag: "a".to_string(), text: text.to_string(), href: Some(String::new()) }
}

fn keywords(list: &[&str]) -> Vec<String> {
    list.iter().map(|k| k.to_string()).collect()
}

fn joined(runs: &[LarkTextContent]) -> String {
    runs.iter().map(|run| run.text.as_str()).collect()
}

#[test]
fn no_keywords_gives_one_plain_run() {
    let runs = process_content_with_keywords("Hello World Test", &[]);
    assert_eq!(runs, vec![plain("Hello World Test")]);
}

#[test]
fn no_keywords_and_empty_content_gives_one_empty_plain_run() {
    let runs = process_content_with_keywords("", &[]);
    assert_eq!(runs, vec![plain("")]);
}

#[test]
fn single_keyword_in_the_middle() {
    let runs = process_content_with_keywords("Hello World Test", &keywords(&["World"]));
    assert_eq!(runs, vec![plain("Hello "), highlight("World"), plain(" Test")]);
}

#[test]
fn repeated_keyword_highlights_successive_occurrences() {
    let runs = process_content_with_keywords("aXbXc", &keywords(&["X", "X"]));
    assert_eq!(
        runs,
        vec![plain("a"), highlight("X"), plain("b"), highlight("X"), plain("c")]
    );
}

#[test]
fn keyword_given_once_highlights_only_the_first_occurrence() {
    let runs = process_content_with_keywords("aXbXc", &keywords(&["X"]));
    assert_eq!(runs, vec![plain("a"), highlight("X"), plain("bXc")]);
}

#[test]
fn absent_keyword_is_skipped() {
    let runs = process_content_with_keywords("no match here", &keywords(&["zzz"]));
    assert_eq!(runs, vec![plain("no match here")]);
}

#[test]
fn keyword_at_the_start_has_no_plain_run_before_it() {
    let runs = process_content_with_keywords("World peace", &keywords(&["World"]));
    assert_eq!(runs, vec![highlight("World"), plain(" peace")]);
}

#[test]
fn keyword_at_the_end_has_no_plain_run_after_it() {
    let runs = process_content_with_keywords("Hello World", &keywords(&["World"]));
    assert_eq!(runs, vec![plain("Hello "), highlight("World")]);
}

#[test]
fn keyword_that_is_the_whole_content() {
    let runs = process_content_with_keywords("alert", &keywords(&["alert"]));
    assert_eq!(runs, vec![highlight("alert")]);
}

#[test]
fn empty_content_with_absent_keyword_gives_no_run() {
    let runs = process_content_with_keywords("", &keywords(&["x"]));
    assert_eq!(runs, Vec::<LarkTextContent>::new());
}

#[test]
fn empty_keyword_matches_at_the_cursor() {
    let runs = process_content_with_keywords("abc", &keywords(&[""]));
    assert_eq!(runs, vec![highlight(""), plain("abc")]);
    let runs = process_content_with_keywords("", &keywords(&[""]));
    assert_eq!(runs, vec![highlight("")]);
}

#[test]
fn keyword_order_decides_what_matches() {
    let runs = process_content_with_keywords("one two three", &keywords(&["two", "one"]));
    assert_eq!(runs, vec![plain("one "), highlight("two"), plain(" three")]);
    let runs = process_content_with_keywords("one two three", &keywords(&["one", "two"]));
    assert_eq!(
        runs,
        vec![highlight("one"), plain(" "), highlight("two"), plain(" three")]
    );
}

#[test]
fn later_keyword_matches_only_behind_the_earlier_one() {
    let runs = process_content_with_keywords("abcabc", &keywords(&["bc", "a", "a"]));
    assert_eq!(
        runs,
        vec![plain("a"), highlight("bc"), highlight("a"), plain("bc")]
    );
}

#[test]
fn overlapping_keywords_take_the_text_in_turn() {
    let runs = process_content_with_keywords("foobar", &keywords(&["foob", "bar"]));
    assert_eq!(runs, vec![highlight("foob"), plain("ar")]);
}

#[test]
fn keywords_beyond_ascii() {
    let runs = process_content_with_keywords("服务 down — 请检查", &keywords(&["down", "检查"]));
    assert_eq!(
        runs,
        vec![plain("服务 "), highlight("down"), plain(" — 请"), highlight("检查")]
    );
}

#[test]
fn partial_match_before_the_full_match() {
    let runs = process_content_with_keywords("aaab", &keywords(&["aab"]));
    assert_eq!(runs, vec![plain("a"), highlight("aab")]);
}

#[test]
fn joined_texts_give_the_content_back() {
    let contents = ["", "a", "aXbXc", "Hello World Test", "服务 down — 请检查", ",,,", "  "];
    let lists: [&[&str]; 7] = [
        &[],
        &[""],
        &["X"],
        &["X", "X", "X"],
        &["World", "Hello", "Test"],
        &["检查", "a", ""],
        &["zzz", " ", ","],
    ];
    for content in contents {
        for list in lists {
            let runs = process_content_with_keywords(content, &keywords(list));
            assert_eq!(joined(&runs), content);
        }
    }
}

#[test]
fn highlights_are_at_most_one_per_keyword() {
    let runs = process_content_with_keywords("x x x x", &keywords(&["x", "y", "x"]));
    let count = runs.iter().filter(|run| run.tag == "a").count();
    assert_eq!(count, 2);
    assert_eq!(
        runs,
        vec![highlight("x"), plain(" "), highlight("x"), plain(" x x")]
    );
}

#[test]
fn constructors_set_tag_and_link() {
    assert_eq!(LarkTextContent::plain("p".to_string()), plain("p"));
    assert_eq!(LarkTextContent::highlight("h".to_string()), highlight("h"));
    assert_eq!(LarkTextContent::plain("p".to_string()).href, None);
    assert_eq!(LarkTextContent::highlight("h".to_string()).href, Some(String::new()));
}

#[test]
fn find_first_gives_the_least_position() {
    let hay: Vec<char> = "abcabc".chars().collect();
    let find = |needle: &str| {
        let needle: Vec<char> = needle.chars().collect();
        find_first(&hay, &needle)
    };
    assert_eq!(find("abc"), Some(0));
    assert_eq!(find("bc"), Some(1));
    assert_eq!(find("ca"), Some(2));
    assert_eq!(find("c"), Some(2));
    assert_eq!(find("abcabc"), Some(0));
    assert_eq!(find(""), Some(0));
    assert_eq!(find("abcabca"), None);
    assert_eq!(find("cb"), None);
    assert_eq!(find_first(&[], &[]), Some(0));
    assert_eq!(find_first(&[], &['a']), None);
}

#[test]
fn matches_at_compares_in_place() {
    let hay: Vec<char> = "abcabc".chars().collect();
    assert!(matches_at(&hay, 3, &['a', 'b', 'c']));
    assert!(!matches_at(&hay, 2, &['a', 'b', 'c']));
    assert!(matches_at(&hay, 6, &[]));
}

#[test]
fn chars_of_decodes_every_character() {
    assert_eq!(chars_of(""), Vec::<char>::new());
    assert_eq!(chars_of("a—检"), vec!['a', '—', '检']);
}
