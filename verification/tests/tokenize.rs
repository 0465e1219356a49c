use rshell::tokenize::{concat_str, join_spaces, preprocess_args, split_args, str_chars};

#[test]
fn quoted_tokens() {
    // Single quotes keep inner spaces; inside double quotes a backslash
    // escapes a double quote.
    let toks = split_args("echo 'a  b' \"c\\\"d\"");
    assert_eq!(toks, vec!["echo".to_string(), "a  b".to_string(), "c\"d".to_string()]);
}

#[test]
fn escaped_space_joins_words() {
    let toks = split_args("echo a\\ b");
    assert_eq!(toks, vec!["echo".to_string(), "a b".to_string()]);
}

#[test]
fn runs_of_spaces_produce_no_empty_tokens() {
    let toks = split_args("  a   b  ");
    assert_eq!(toks, vec!["a".to_string(), "b".to_string()]);
}

#[test]
fn splits_on_any_unquoted_whitespace() {
    assert_eq!(split_args("a\tb"), vec!["a".to_string(), "b".to_string()]);
    assert_eq!(split_args("a \t \u{0b} b"), vec!["a".to_string(), "b".to_string()]);
    assert_eq!(split_args("a\r\nb"), vec!["a".to_string(), "b".to_string()]);
}

#[test]
fn quoted_or_escaped_whitespace_stays_in_the_token() {
    assert_eq!(split_args("'a\tb'"), vec!["a\tb".to_string()]);
    assert_eq!(split_args("a\\\tb"), vec!["a\tb".to_string()]);
}

#[test]
fn single_quotes_keep_backslash_literal() {
    let toks = split_args("'a\\nb'");
    assert_eq!(toks, vec!["a\\nb".to_string()]);
}

#[test]
fn double_quote_escapes() {
    // Backslash escapes `$` and backquote; before other characters it stays.
    assert_eq!(split_args("\"a\\$b\""), vec!["a$b".to_string()]);
    assert_eq!(split_args("\"a\\`b\""), vec!["a`b".to_string()]);
    assert_eq!(split_args("\"a\\nb\""), vec!["a\\nb".to_string()]);
    assert_eq!(split_args("\"a\\\\b\""), vec!["a\\b".to_string()]);
}

#[test]
fn double_quote_line_continuation() {
    let toks = split_args("\"a\\\nb\"");
    assert_eq!(toks, vec!["ab".to_string()]);
}

#[test]
fn quote_of_other_kind_is_literal() {
    assert_eq!(split_args("'a\"b'"), vec!["a\"b".to_string()]);
    assert_eq!(split_args("\"a'b\""), vec!["a'b".to_string()]);
}

#[test]
fn unterminated_quote_implicitly_closed() {
    assert_eq!(split_args("'abc"), vec!["abc".to_string()]);
    assert_eq!(split_args("\"x y"), vec!["x y".to_string()]);
}

#[test]
fn trailing_backslash_is_literal() {
    assert_eq!(split_args("ab\\"), vec!["ab\\".to_string()]);
}

#[test]
fn empty_input_yields_no_tokens() {
    assert_eq!(split_args(""), Vec::<String>::new());
}

#[test]
fn preprocess_collapses_separators() {
    assert_eq!(preprocess_args("a   'b c'"), "a b c".to_string());
    assert_eq!(preprocess_args(""), "".to_string());
}

#[test]
fn join_and_concat() {
    let ts = vec!["a".to_string(), "b".to_string(), "c".to_string()];
    assert_eq!(join_spaces(&ts), "a b c".to_string());
    assert_eq!(join_spaces(&Vec::new()), "".to_string());
    assert_eq!(concat_str("ab", "cd"), "abcd".to_string());
}

#[test]
fn str_chars_roundtrip() {
    let cs = str_chars("héllo");
    assert_eq!(cs, vec!['h', 'é', 'l', 'l', 'o']);
}
