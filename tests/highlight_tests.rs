use minigrep::{render_line, search, search_case_insensitive};

fn coloured() {
    colored::control::set_override(true);
}

#[test]
fn every_occurrence_is_marked() {
    coloured();
    let r = search("a", "banana");
    assert_eq!(
        vec!["b\x1b[31ma\x1b[0mn\x1b[31ma\x1b[0mn\x1b[31ma\x1b[0m"],
        r
    );
}

#[test]
fn insensitive_marks_the_original_case() {
    coloured();
    let r = search_case_insensitive("DUCT", "Pick three.\nDuct tape, duct.");
    assert_eq!(vec!["\x1b[31mDuct\x1b[0m tape, \x1b[31mduct\x1b[0m."], r);
}

#[test]
fn matches_do_not_overlap() {
    coloured();
    assert_eq!(vec!["\x1b[31maa\x1b[0ma"], search("aa", "aaa"));
}

#[test]
fn empty_query_marks_nothing() {
    coloured();
    assert_eq!(vec!["banana"], search("", "banana"));
}

#[test]
fn folding_that_changes_length_leaves_the_line_unmarked() {
    coloured();
    // 'İ' lowercases to two characters, so offsets cannot be carried over.
    assert_eq!(vec!["İx"], search_case_insensitive("x", "İx"));
}

#[test]
fn a_match_holding_a_reset_stays_plain() {
    coloured();
    assert_eq!(vec!["a\x1b[0mb"], search("\x1b[0m", "a\x1b[0mb"));
    assert_eq!(
        Some("\x1b[31mab\x1b[0mc".to_string()),
        render_line("abc", "abc", "ab", true)
    );
}
