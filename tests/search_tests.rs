use minigrep::{
    render_line, search, search_case_insensitive, search_config, search_lines, split_lines, Config,
};

fn plain() {
    colored::control::set_override(false);
}

#[test]
fn case_sensitive() {
    plain();
    let query = "duct";
    let contents = "Rust:\nsafe, fast, productive.\nPick three.\nDuct tape.";

    assert_eq!(vec!["safe, fast, productive."], search(query, contents));
}

#[test]
fn case_insensitive() {
    plain();
    let query = "rUsT";
    let contents = "Rust:\nsafe, fast, productive.\nPick three.\nTrust me.";
    assert_eq!(vec!["Rust:", "Trust me."], search_case_insensitive(query, contents));
}

#[test]
fn empty_query_gives_every_line() {
    plain();
    let contents = "Rust:\nsafe, fast, productive.\n\nDuct tape.\n";
    let all = vec!["Rust:", "safe, fast, productive.", "", "Duct tape."];
    assert_eq!(all, search("", contents));
    assert_eq!(all, search_case_insensitive("", contents));
}

#[test]
fn empty_contents_give_nothing() {
    plain();
    assert!(search("duct", "").is_empty());
    assert!(search("", "").is_empty());
    assert!(search_case_insensitive("DUCT", "").is_empty());
}

#[test]
fn no_match_gives_nothing() {
    plain();
    assert!(search("zebra", "Rust:\nsafe, fast, productive.").is_empty());
}

#[test]
fn insensitive_selects_more_on_mixed_case() {
    plain();
    let contents = "Rust:\nsafe, fast, productive.\nPick three.\nDuct tape.";
    assert_eq!(vec!["safe, fast, productive."], search("duct", contents));
    assert_eq!(
        vec!["safe, fast, productive.", "Duct tape."],
        search_case_insensitive("duct", contents)
    );
}

#[test]
fn lowercase_inputs_search_alike() {
    plain();
    let contents = "rust:\nsafe, fast, productive.\ntrust me.";
    assert_eq!(search("rust", contents), search_case_insensitive("rust", contents));
    assert_eq!(vec!["rust:", "trust me."], search("rust", contents));
}

#[test]
fn plain_search_is_repeatable() {
    let contents = "Rust:\nsafe, fast, productive.\nPick three.\nTrust me.";
    let a = search_lines("ust", contents, false, false);
    let b = search_lines("ust", contents, false, false);
    assert_eq!(a, b);
    assert_eq!(vec!["Rust:", "Trust me."], a);
}

#[test]
fn a_line_with_several_matches_comes_once() {
    plain();
    assert_eq!(vec!["banana", "a"], search("a", "banana\nxyz\na"));
}

#[test]
fn lines_split_as_std_does() {
    assert_eq!(vec!["a", "b"], split_lines("a\r\nb\n"));
    assert_eq!(vec!["a", "", "b"], split_lines("a\n\nb"));
    assert_eq!(vec!["x\r"], split_lines("x\r"));
    assert_eq!(vec![""], split_lines("\n"));
    assert!(split_lines("").is_empty());
}

#[test]
fn render_line_without_highlight() {
    assert_eq!(Some("Trust me.".to_string()), render_line("Trust me.", "trust me.", "rust", false));
    assert_eq!(None, render_line("Trust me.", "Trust me.", "RUST", false));
    assert_eq!(Some("anything".to_string()), render_line("anything", "", "", true));
}

#[test]
fn env_override_set_to_empty_makes_search_insensitive() {
    let c = Config::from_parts("q".to_string(), "f.txt".to_string(), false, Some(String::new()));
    assert!(c.ignore_case);
    assert_eq!("q", c.query);
    assert_eq!("f.txt", c.filename);
}

#[test]
fn config_without_flag_or_override_is_exact() {
    let c = Config::from_parts("q".to_string(), "f.txt".to_string(), false, None);
    assert!(!c.ignore_case);
    let c = Config::from_parts("q".to_string(), "f.txt".to_string(), true, None);
    assert!(c.ignore_case);
}

#[test]
fn search_config_follows_the_mode() {
    plain();
    let contents = "Rust:\nTrust me.";
    let exact = Config::from_parts("rust".to_string(), "f".to_string(), false, None);
    let folded = Config::from_parts("rust".to_string(), "f".to_string(), true, None);
    assert_eq!(vec!["Trust me."], search_config(&exact, contents));
    assert_eq!(vec!["Rust:", "Trust me."], search_config(&folded, contents));
}
