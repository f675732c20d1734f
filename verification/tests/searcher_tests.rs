use minigrep::searcher::search;
use minigrep::searcher::search_case_insensitive;
use minigrep::searcher::matching_lines;
use minigrep::searcher::parse_config;
use minigrep::searcher::Config;
use minigrep::text::last_char_of_first_line;

#[test]
fn case_sensitive() {
    let query = "duct";
    let contents = "\
Rust:
safe, fast, productive
Pick three.";
    assert_eq!(vec!["safe, fast, productive"], search(query, contents));
}

#[test]
fn case_insensitive() {
    let query = "rUsT";
    let contents = "\
Rust:
safe, fast, productive
Pick three.
Trust me.";

    assert_eq!(vec!["Rust:", "Trust me."], search_case_insensitive(query, contents));
}

#[test]
fn no_match_yields_nothing() {
    let r = search("zzz", "hello\nworld\n");
    assert!(r.is_empty());
    let r = search_case_insensitive("zzz", "hello\nworld\n");
    assert!(r.is_empty());
}

#[test]
fn empty_query_matches_every_line() {
    assert_eq!(vec!["a", "b", "c"], search("", "a\nb\nc"));
}

#[test]
fn empty_contents_yield_nothing() {
    assert!(search("x", "").is_empty());
    assert!(search_case_insensitive("x", "").is_empty());
}

#[test]
fn crlf_terminators_match_like_newlines() {
    let lf = "Rust:\nsafe, fast, productive\nPick three.";
    let crlf = "Rust:\r\nsafe, fast, productive\r\nPick three.";
    assert_eq!(search("duct", lf), search("duct", crlf));
    assert_eq!(vec!["safe, fast, productive"], search("duct", crlf));
}

#[test]
fn trailing_terminator_opens_no_line() {
    assert_eq!(vec!["a", "b"], search("", "a\nb\n"));
    assert_eq!(vec!["a", "", "b"], search("", "a\n\nb"));
}

#[test]
fn lone_carriage_return_is_content() {
    assert_eq!(vec!["a\rb"], search("a", "a\rb"));
}

#[test]
fn matches_keep_input_order_without_duplication() {
    let contents = "one ab\ntwo\nthree ab\nfour ab";
    assert_eq!(vec!["one ab", "three ab", "four ab"], search("ab", contents));
}

#[test]
fn sensitive_matches_are_insensitive_matches() {
    let contents = "Rust:\nsafe, fast, productive\nPick three.\nTrust me.";
    let sensitive = search("rust", contents);
    let insensitive = search_case_insensitive("rust", contents);
    assert!(sensitive.iter().all(|l| insensitive.contains(l)));
    assert_eq!(vec!["Trust me."], sensitive);
    assert_eq!(vec!["Rust:", "Trust me."], insensitive);
}

#[test]
fn lowercased_query_matches_alike() {
    let contents = "Rust:\nsafe, fast, productive\nPick three.\nTrust me.";
    assert_eq!(
        search_case_insensitive("rUsT", contents),
        search_case_insensitive("rust", contents)
    );
}

#[test]
fn lowercasing_is_ascii_only() {
    assert_eq!(vec!["a"], search_case_insensitive("A", "a"));
    assert!(search_case_insensitive("\u{c9}", "\u{e9}").is_empty());
}

#[test]
fn multibyte_lines_are_yielded_verbatim() {
    assert_eq!(vec!["caf\u{e9} au lait"], search("caf", "caf\u{e9} au lait\nplain"));
}

#[test]
fn config_build_accepts_two_user_arguments() {
    let args = vec![
        String::from("prog"),
        String::from("needle"),
        String::from("hay.txt"),
        String::from("extra"),
    ];
    let config = Config::build(&args, true).unwrap();
    assert_eq!(config.query, "needle");
    assert_eq!(config.file_path, "hay.txt");
    assert!(config.ignore_case);
}

#[test]
fn config_build_rejects_missing_arguments() {
    let args = vec![String::from("prog"), String::from("onlyone")];
    match Config::build(&args, false) {
        Ok(_) => panic!("two arguments alone must be rejected"),
        Err(err) => assert!(err.contains("not enough arguments")),
    }
}

#[test]
fn parse_config_extracts_query_and_path() {
    let args = vec![
        String::from("prog"),
        String::from("needle"),
        String::from("hay.txt"),
    ];
    let config = parse_config(&args);
    assert_eq!(config.query, "needle");
    assert_eq!(config.file_path, "hay.txt");
    assert!(!config.ignore_case);
}

#[test]
fn matching_lines_selects_by_case_policy() {
    let contents = "Rust:\nsafe, fast, productive\nPick three.\nTrust me.";
    let args = vec![
        String::from("prog"),
        String::from("rUsT"),
        String::from("poem.txt"),
    ];
    let sensitive = Config::build(&args, false).unwrap();
    let insensitive = Config::build(&args, true).unwrap();
    assert!(matching_lines(&sensitive, contents).is_empty());
    assert_eq!(vec!["Rust:", "Trust me."], matching_lines(&insensitive, contents));
}

#[test]
fn last_char_of_first_line_cases() {
    assert_eq!(Some('o'), last_char_of_first_line("hello\nworld"));
    assert_eq!(Some('b'), last_char_of_first_line("ab\r\ncd"));
    assert_eq!(None, last_char_of_first_line(""));
    assert_eq!(None, last_char_of_first_line("\nabc"));
}

#[test]
fn last_char_of_unterminated_line_keeps_carriage_return() {
    assert_eq!(Some('\r'), last_char_of_first_line("ab\r"));
    assert_eq!(Some('\r'), last_char_of_first_line("\r"));
}
