use minishell::parser::{parse_redirect, split_words, tokenize, RedirectType};

fn words(list: &[&str]) -> Vec<String> {
    list.iter().map(|w| w.to_string()).collect()
}

#[test]
fn tokenizes_basic_command() {
    let (tokens, redirect) = tokenize("echo hello world").unwrap();
    assert_eq!(tokens, vec!["echo", "hello", "world"]);
    assert!(redirect.is_none());
}

#[test]
fn preserves_whitespace_inside_quotes() {
    let (tokens, redirect) = tokenize("echo \"hello world\"").unwrap();
    assert_eq!(tokens, vec!["echo", "hello world"]);
    assert!(redirect.is_none());
}

#[test]
fn extracts_redirect_information() {
    let (tokens, redirect) = tokenize("echo hi > out.txt").unwrap();
    assert_eq!(tokens, vec!["echo", "hi"]);

    let redirect = redirect.expect("expected redirect");
    assert_eq!(redirect.fd, 1);
    assert_eq!(redirect.target, "out.txt");
    assert!(matches!(redirect.redirect_type, RedirectType::CREATE));
}

#[test]
fn handles_escape_sequences() {
    let (tokens, redirect) = tokenize(r"echo foo\ bar").unwrap();
    assert_eq!(tokens, vec!["echo", "foo bar"]);
    assert!(redirect.is_none());
}

#[test]
fn empty_line_has_no_words() {
    assert!(split_words("").is_empty());
    assert!(split_words(" \t  ").is_empty());
}

#[test]
fn single_quotes_keep_backslashes_and_double_quotes() {
    assert_eq!(split_words(r#"echo 'a\b "c"'"#), vec!["echo", r#"a\b "c""#]);
}

#[test]
fn double_quotes_keep_single_quotes() {
    assert_eq!(split_words(r#"echo "it's""#), vec!["echo", "it's"]);
}

#[test]
fn adjacent_quoted_parts_form_one_word() {
    assert_eq!(split_words(r#"a"b c"'d e'f"#), vec!["ab cd ef"]);
}

#[test]
fn empty_quotes_give_no_word() {
    assert_eq!(split_words("a '' b"), vec!["a", "b"]);
}

#[test]
fn unterminated_quote_closes_at_end() {
    assert_eq!(split_words("echo \"a  b"), vec!["echo", "a  b"]);
}

#[test]
fn backslash_at_end_is_kept() {
    assert_eq!(split_words("echo a\\"), vec!["echo", "a\\"]);
}

#[test]
fn unknown_escape_in_double_quotes_keeps_backslash() {
    assert_eq!(split_words(r#""a\qb""#), vec![r"a\qb"]);
}

#[test]
fn known_escapes_in_double_quotes_drop_backslash() {
    assert_eq!(split_words(r#""a\"b\$c\\d\`e""#), vec![r#"a"b$c\d`e"#]);
    assert_eq!(split_words("\"a\\\nb\""), vec!["a\nb"]);
}

#[test]
fn escape_outside_quotes_takes_any_character() {
    assert_eq!(split_words(r#"\"x\'\\"#), vec![r#""x'\"#]);
    assert_eq!(split_words(r"\q"), vec!["q"]);
}

#[test]
fn rejoined_words_are_normalised_line() {
    let line = "  echo   \"hello   world\"  'x'y  ";
    assert_eq!(split_words(line).join(" "), "echo hello   world xy");
}

#[test]
fn clean_words_are_left_unchanged() {
    let mut tokens = words(&["echo", "a", "b"]);
    let r = parse_redirect(&mut tokens).unwrap();
    assert!(r.is_none());
    assert_eq!(tokens, vec!["echo", "a", "b"]);

    let mut short = words(&[">"]);
    assert!(parse_redirect(&mut short).unwrap().is_none());
    assert_eq!(short, vec![">"]);
}

#[test]
fn append_redirect_on_stderr() {
    let (tokens, redirect) = tokenize("ls nope 2>> errors.log").unwrap();
    assert_eq!(tokens, vec!["ls", "nope"]);
    let redirect = redirect.unwrap();
    assert_eq!(redirect.fd, 2);
    assert_eq!(redirect.target, "errors.log");
    assert_eq!(redirect.redirect_type, RedirectType::APPEND);
}

#[test]
fn explicit_stdout_and_leading_zeros() {
    let (tokens, redirect) = tokenize("echo hi 001> f").unwrap();
    assert_eq!(tokens, vec!["echo", "hi"]);
    let redirect = redirect.unwrap();
    assert_eq!(redirect.fd, 1);
    assert_eq!(redirect.redirect_type, RedirectType::CREATE);
}

#[test]
fn only_the_last_redirect_is_taken() {
    let (tokens, redirect) = tokenize("echo a > b > c").unwrap();
    assert_eq!(tokens, vec!["echo", "a", ">", "b"]);
    assert_eq!(redirect.unwrap().target, "c");
}

#[test]
fn malformed_stream_number_is_an_error() {
    assert_eq!(
        tokenize("echo hi x> f").unwrap_err(),
        "invalid file descriptor: x"
    );
    assert_eq!(
        tokenize("echo hi 99999999999> f").unwrap_err(),
        "invalid file descriptor: 99999999999"
    );
    let mut tokens = words(&["echo", "1a>>", "f"]);
    assert_eq!(
        parse_redirect(&mut tokens).unwrap_err(),
        "invalid file descriptor: 1a"
    );
    assert_eq!(tokens, vec!["echo", "1a>>", "f"]);
}

#[test]
fn largest_stream_number_is_accepted() {
    let (_, redirect) = tokenize("echo hi 4294967295> f").unwrap();
    assert_eq!(redirect.unwrap().fd, 4294967295);
}

#[test]
fn quoted_operator_is_still_an_operator() {
    let (tokens, redirect) = tokenize("echo hi '>' f").unwrap();
    assert_eq!(tokens, vec!["echo", "hi"]);
    assert_eq!(redirect.unwrap().target, "f");
}
