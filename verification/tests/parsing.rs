use replman::parsing::{find_next_unescaped_space, split_string_unescape, unescape, TokenizeError};

fn tokens(line: &str) -> Vec<&str> {
    split_string_unescape(line).into_iter().map(Result::unwrap).collect()
}

#[test]
fn basic_single_item() {
    assert_eq!(tokens("Hello"), vec!["Hello"]);
}

#[test]
fn basic_two_items() {
    assert_eq!(tokens("Hello World!"), vec!["Hello", "World!"]);
}

#[test]
fn basic_empty() {
    assert_eq!(tokens(""), Vec::<&str>::new());
}

#[test]
fn escaped_single_double_quotes() {
    assert_eq!(tokens(r#""Hello, World!""#), vec!["Hello, World!"]);
}

#[test]
fn escaped_single_single_quotes() {
    assert_eq!(tokens(r#"'Hello, World!'"#), vec!["Hello, World!"]);
}

#[test]
fn escaped_two_items_mixed() {
    assert_eq!(
        tokens(r#"'Hello, World!' "What is going on?""#),
        vec!["Hello, World!", "What is going on?"]
    );
}

#[test]
fn escaped_sequence_of_double_quotes() {
    assert_eq!(tokens(r#""" "" """#), vec!["", "", ""]);
}

#[test]
fn character_after_closing_quote_is_invalid() {
    assert_eq!(
        split_string_unescape(r#""a"b"#),
        vec![Err(TokenizeError::InvalidQuoting { position: 3, found: 'b' })]
    );
}

#[test]
fn error_follows_the_good_tokens_and_counts_from_the_line_start() {
    assert_eq!(
        split_string_unescape(r#"say "a"b c"#),
        vec![Ok("say"), Err(TokenizeError::InvalidQuoting { position: 7, found: 'b' })]
    );
}

#[test]
fn quote_directly_after_closing_quote_is_invalid() {
    assert_eq!(
        split_string_unescape(r#""a""b""#),
        vec![Err(TokenizeError::InvalidQuoting { position: 3, found: '"' })]
    );
}

#[test]
fn other_quote_inside_quotes_is_literal() {
    assert_eq!(tokens(r#""'Hello', World!""#), vec!["'Hello', World!"]);
    assert_eq!(tokens(r#"'say "hi" now'"#), vec![r#"say "hi" now"#]);
}

#[test]
fn consecutive_spaces_give_empty_tokens() {
    assert_eq!(tokens("a  b"), vec!["a", "", "b"]);
    assert_eq!(tokens(" a"), vec!["", "a"]);
}

#[test]
fn trailing_space_gives_no_token() {
    assert_eq!(tokens("a "), vec!["a"]);
}

#[test]
fn lone_quote_is_a_token_of_its_own() {
    assert_eq!(tokens("\""), vec!["\""]);
    assert_eq!(tokens("'"), vec!["'"]);
    assert_eq!(unescape("\""), "\"");
}

#[test]
fn unclosed_quote_reaches_the_end() {
    assert_eq!(tokens("\"abc def"), vec!["\"abc def"]);
}

#[test]
fn quote_inside_a_token_protects_spaces_and_stays() {
    assert_eq!(tokens("a\"b c\" d"), vec!["a\"b c\"", "d"]);
}

#[test]
fn unescape_needs_equal_quotes() {
    assert_eq!(unescape("\"abc\""), "abc");
    assert_eq!(unescape("'abc'"), "abc");
    assert_eq!(unescape("\"abc'"), "\"abc'");
    assert_eq!(unescape("abc"), "abc");
    assert_eq!(unescape("\"\""), "");
    assert_eq!(unescape(""), "");
}

#[test]
fn no_backslash_escapes() {
    assert_eq!(tokens(r#"a\ b"#), vec![r#"a\"#, "b"]);
}

#[test]
fn positions_count_characters() {
    assert_eq!(find_next_unescaped_space("héllo wörld"), Ok(Some(5)));
    assert_eq!(find_next_unescaped_space("héllo"), Ok(None));
    assert_eq!(
        find_next_unescaped_space("'é'x"),
        Err(TokenizeError::InvalidQuoting { position: 3, found: 'x' })
    );
    assert_eq!(tokens("héllo wörld"), vec!["héllo", "wörld"]);
}

#[test]
fn first_space_outside_quotes() {
    assert_eq!(find_next_unescaped_space("ab cd ef"), Ok(Some(2)));
    assert_eq!(find_next_unescaped_space("'ab cd' ef"), Ok(Some(7)));
    assert_eq!(find_next_unescaped_space("'ab cd ef"), Ok(None));
    assert_eq!(find_next_unescaped_space(""), Ok(None));
}
