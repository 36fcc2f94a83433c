use bus_monitor::names::trim_text;

#[test]
fn trim_removes_surrounding_whitespace() {
    assert_eq!(trim_text("  :1.5\t\n"), ":1.5");
    assert_eq!(trim_text(":1.5"), ":1.5");
    assert_eq!(trim_text("a b"), "a b");
}

#[test]
fn trim_of_all_whitespace_is_empty() {
    assert_eq!(trim_text(" \t\r\n"), "");
    assert_eq!(trim_text(""), "");
}
