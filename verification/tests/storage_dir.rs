use vagga_isolation::storage_dir::sanitize;

#[test]
fn clean_name_is_kept() {
    assert_eq!(sanitize("hello-World_42"), "hello-World_42");
}

#[test]
fn empty_name_is_kept() {
    assert_eq!(sanitize(""), "");
}

#[test]
fn single_foreign_character_becomes_hyphen() {
    assert_eq!(sanitize("a b"), "a-b");
}

#[test]
fn run_of_foreign_characters_becomes_one_hyphen() {
    assert_eq!(sanitize("a!! /b"), "a-b");
}

#[test]
fn only_the_first_run_is_replaced() {
    assert_eq!(sanitize("a!!b!!c"), "a-b!!c");
}

#[test]
fn leading_and_trailing_runs() {
    assert_eq!(sanitize("//srv"), "-srv");
    assert_eq!(sanitize("srv//"), "srv-");
    assert_eq!(sanitize("!!"), "-");
}

#[test]
fn characters_beyond_ascii_are_foreign() {
    assert_eq!(sanitize("h\u{e9}llo"), "h-llo");
    assert_eq!(sanitize("a\u{e9}\u{4e16}b c"), "a-b c");
}

#[test]
fn line_break_is_foreign() {
    assert_eq!(sanitize("a\nb"), "a-b");
}
