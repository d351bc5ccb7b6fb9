use termprompt::Expansion;

fn strings(items: &[&str]) -> Vec<String> {
    let mut out = Vec::new();
    for item in items {
        out.push(item.to_string());
    }
    out
}

#[test]
fn new_expansion_is_empty() {
    let found = Expansion::new();
    assert_eq!(found.entry_as_str(), "");
    assert_eq!(found.entry_as_bytes(), b"");
    assert_eq!(found.hint_count(), 0);
    assert!(!found.is_resolved());
    assert_eq!(found.hints_as_string(), "\r\n\r\n");
}

#[test]
fn entry_without_hints_is_resolved() {
    assert!(Expansion::with("x".to_string(), Vec::new()).is_resolved());
}

#[test]
fn entry_with_one_hint_is_resolved() {
    assert!(Expansion::with("o.txt ".to_string(), strings(&["foo.txt "])).is_resolved());
}

#[test]
fn entry_with_two_hints_is_not_resolved() {
    assert!(!Expansion::with("o".to_string(), strings(&["foo", "fob"])).is_resolved());
    assert!(!Expansion::with("o".to_string(), strings(&["a", "b", "c", "d"])).is_resolved());
}

#[test]
fn empty_entry_is_never_resolved() {
    assert!(!Expansion::with(String::new(), Vec::new()).is_resolved());
    assert!(!Expansion::with(String::new(), strings(&["foo"])).is_resolved());
    assert!(!Expansion::with(String::new(), strings(&["foo", "fob"])).is_resolved());
}

#[test]
fn hints_are_joined_by_tabs_between_line_breaks() {
    let one = Expansion::with(String::new(), strings(&["foo.txt "]));
    assert_eq!(one.hints_as_string(), "\r\nfoo.txt \r\n");
    let two = Expansion::with(String::new(), strings(&["foo.txt ", "food/"]));
    assert_eq!(two.hints_as_string(), "\r\nfoo.txt \tfood/\r\n");
    let three = Expansion::with("x".to_string(), strings(&["a", "", "c"]));
    assert_eq!(three.hints_as_string(), "\r\na\t\tc\r\n");
}

#[test]
fn entry_is_given_as_text_and_as_bytes() {
    let found = Expansion::with("\u{e9}t\u{e9}/".to_string(), strings(&["\u{e9}t\u{e9}/"]));
    assert_eq!(found.entry_as_str(), "\u{e9}t\u{e9}/");
    assert_eq!(found.entry_as_bytes(), &[0xc3, 0xa9, b't', 0xc3, 0xa9, b'/']);
    assert_eq!(found.hint(0), "\u{e9}t\u{e9}/");
}
