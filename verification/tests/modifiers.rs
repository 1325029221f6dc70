use adguard_rules::split_on_pipe_but_not_in_regex;

#[test]
fn pipe_list_plain() {
    assert_eq!(split_on_pipe_but_not_in_regex("a|b|c"), vec!["a", "b", "c"]);
    assert_eq!(split_on_pipe_but_not_in_regex("abc"), vec!["abc"]);
    assert_eq!(split_on_pipe_but_not_in_regex(""), Vec::<String>::new());
}

#[test]
fn pipe_list_keeps_empty_items_but_the_last() {
    assert_eq!(split_on_pipe_but_not_in_regex("a||b|"), vec!["a", "", "b"]);
    assert_eq!(split_on_pipe_but_not_in_regex("|"), vec![""]);
}

#[test]
fn pipe_inside_regex_does_not_separate() {
    assert_eq!(split_on_pipe_but_not_in_regex("a|/x|y/|b"), vec!["a", "/x|y/", "b"]);
    assert_eq!(split_on_pipe_but_not_in_regex("/x|y"), vec!["/x|y"]);
}

#[test]
fn escaped_slash_does_not_open_a_regex() {
    assert_eq!(split_on_pipe_but_not_in_regex("a\\/b|c"), vec!["a\\/b", "c"]);
}

#[test]
fn commas_are_unescaped_in_items() {
    assert_eq!(split_on_pipe_but_not_in_regex("a\\,b|c\\d"), vec!["a,b", "c\\d"]);
    assert_eq!(split_on_pipe_but_not_in_regex("a\\\\,b"), vec!["a\\,b"]);
    assert_eq!(split_on_pipe_but_not_in_regex("x\\"), vec!["x\\"]);
}
