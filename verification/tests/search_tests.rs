use cache_manager::grep::{search, search_lines, text_file, Config as GrepConfig, MIN_ARGS};
use cache_manager::search::Config;

fn args(words: &[&str]) -> Vec<String> {
    words.iter().map(|word| word.to_string()).collect()
}

fn text() -> Vec<String> {
    args(&["Rust is fun", "trust me", "nothing here", "RUST"])
}

#[test]
fn query_and_file_come_from_the_arguments() {
    let args = args(&["ignore", "rust", "tests/some_text"]);
    let config = GrepConfig::build(&args, false).unwrap();
    assert_eq!(config.file_name(), "./tests/some_text.txt");
    assert_eq!(config.matching_lines(&text()), vec!["trust me"]);
    let config = Config::build(&args, false).unwrap();
    assert_eq!(config.file_name(), "./tests/some_text.txt");
    assert_eq!(config.matching_lines(&text()), vec!["trust me"]);
}

#[test]
fn a_query_that_no_line_holds_finds_nothing() {
    let args = args(&["ignore", "glib", "tests/some_text"]);
    let config = GrepConfig::build(&args, false).unwrap();
    assert!(config.matching_lines(&text()).is_empty());
    let config = Config::build(&args, true).unwrap();
    assert!(config.matching_lines(&text()).is_empty());
}

#[test]
fn further_arguments_are_ignored() {
    let args = args(&["ignore", "rust", "tests/some_text", "some_more"]);
    assert!(GrepConfig::build(&args, false).is_ok());
    assert!(Config::build(&args, false).is_ok());
}

#[test]
fn a_missing_file_argument_is_reported() {
    let args = args(&["ignore", "rust"]);
    assert_eq!(
        GrepConfig::build(&args, false).err(),
        Some("Not enough args".to_string())
    );
    assert_eq!(
        Config::build(&args, false).err(),
        Some("Please provide file path!")
    );
}

#[test]
fn a_missing_query_argument_is_reported() {
    let args = Vec::new();
    assert!(GrepConfig::build(&args, false).is_err());
    assert_eq!(
        Config::build(&args, false).err(),
        Some("Please provide query string!")
    );
    assert_eq!(
        Config::build(&["only".to_string()], false).err(),
        Some("Please provide query string!")
    );
}

#[test]
fn ignoring_case_compares_lower_case_forms() {
    let args = args(&["ignore", "rUsT", "file"]);
    let config = GrepConfig::build(&args, true).unwrap();
    assert_eq!(
        config.matching_lines(&text()),
        vec!["Rust is fun", "trust me", "RUST"]
    );
    assert!(config.matches("TRUSTED"));
    assert!(!config.matches("rest"));
    let exact = GrepConfig::build(&args, false).unwrap();
    assert!(exact.matching_lines(&text()).is_empty());
    assert!(exact.matches("a rUsT b"));
}

#[test]
fn search_finds_runs_of_characters() {
    assert!(search("", "anything", false));
    assert!(search("", "", false));
    assert!(!search("a", "", false));
    assert!(search("né", "année", false));
    assert!(!search("ab", "a b", false));
    assert!(Config::search("AB", "xabx", true));
    assert!(!Config::search("AB", "xabx", false));
    assert_eq!(search_lines("b", &text(), true).len(), 0);
    assert_eq!(text_file("notes"), "./notes.txt");
    assert_eq!(MIN_ARGS, 3);
}
