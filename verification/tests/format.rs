use durable_queue::format::{decode_lines, encode_line, is_valid_item};

fn lines(text: &str) -> Vec<String> {
    decode_lines(text).into_iter().collect()
}

fn texts(items: &[&str]) -> Vec<String> {
    items.iter().map(|s| s.to_string()).collect()
}

#[test]
fn an_empty_item_is_not_valid() {
    assert!(!is_valid_item(""));
}

#[test]
fn an_item_with_a_line_break_is_not_valid() {
    assert!(!is_valid_item("\n"));
    assert!(!is_valid_item("a\n"));
    assert!(!is_valid_item("\na"));
    assert!(!is_valid_item("a\nb"));
    assert!(!is_valid_item("long item with a break at the very end\n"));
}

#[test]
fn any_other_item_is_valid() {
    assert!(is_valid_item("a"));
    assert!(is_valid_item("fuad"));
    assert!(is_valid_item(" "));
    assert!(is_valid_item("two words"));
    assert!(is_valid_item("a\rb"));
    assert!(is_valid_item("a\r"));
    assert!(is_valid_item("\\n"));
    assert!(is_valid_item("日本語"));
}

#[test]
fn a_line_is_the_item_and_a_line_break() {
    assert_eq!(encode_line("fuad"), "fuad\n");
    assert_eq!(encode_line("a b"), "a b\n");
    assert_eq!(encode_line("é"), "é\n");
    assert_eq!(encode_line(""), "\n");
}

#[test]
fn empty_content_holds_no_item() {
    assert_eq!(lines(""), Vec::<String>::new());
}

#[test]
fn each_ended_line_is_one_item() {
    assert_eq!(lines("a\n"), texts(&["a"]));
    assert_eq!(lines("a\nb\n"), texts(&["a", "b"]));
    assert_eq!(lines("fuad\nismail\nfaisal\nibrahim\n"), texts(&["fuad", "ismail", "faisal", "ibrahim"]));
}

#[test]
fn a_last_line_without_line_break_is_an_item_too() {
    assert_eq!(lines("a"), texts(&["a"]));
    assert_eq!(lines("a\nb"), texts(&["a", "b"]));
}

#[test]
fn an_empty_line_is_an_empty_item() {
    assert_eq!(lines("\n"), texts(&[""]));
    assert_eq!(lines("\n\n"), texts(&["", ""]));
    assert_eq!(lines("a\n\nb\n"), texts(&["a", "", "b"]));
    assert_eq!(lines("\na"), texts(&["", "a"]));
}

#[test]
fn only_the_line_break_ends_a_line() {
    assert_eq!(lines("a\r\nb\n"), texts(&["a\r", "b"]));
    assert_eq!(lines("a\tb c\n"), texts(&["a\tb c"]));
    assert_eq!(lines("a\\nb\n"), texts(&["a\\nb"]));
}

#[test]
fn lines_keep_characters_outside_ascii() {
    assert_eq!(lines("höhe\n☃\n日本語\n"), texts(&["höhe", "☃", "日本語"]));
}

#[test]
fn decoding_the_written_lines_gives_the_items_back() {
    let items = ["one", "two words", "3", "one", "ünï"];
    let mut content = String::new();
    for item in items {
        content.push_str(&encode_line(item));
    }
    assert_eq!(content, "one\ntwo words\n3\none\nünï\n");
    assert_eq!(lines(&content), texts(&items));
}
