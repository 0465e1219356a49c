use rshell::redirect::{
    extract_redirections, find_redirection, Redirection, RedirectionMode, RedirectionTarget,
};
use rshell::tokenize::split_args;

#[test]
fn extraction_removes_operator_and_filename() {
    let toks = split_args("pwd > out.txt 2>> err.txt extra");
    let (clean, redirs) = extract_redirections(&toks).unwrap();
    assert_eq!(clean, vec!["pwd".to_string(), "extra".to_string()]);
    assert_eq!(
        redirs,
        vec![
            Redirection {
                target: RedirectionTarget::Stdout,
                file: "out.txt".to_string(),
                mode: RedirectionMode::Overwrite,
            },
            Redirection {
                target: RedirectionTarget::Stderr,
                file: "err.txt".to_string(),
                mode: RedirectionMode::Append,
            },
        ]
    );
}

#[test]
fn last_stdout_redirection_wins() {
    let toks = split_args("cmd > first.txt 1>> second.txt");
    let (clean, redirs) = extract_redirections(&toks).unwrap();
    assert_eq!(clean, vec!["cmd".to_string()]);
    assert_eq!(
        redirs,
        vec![Redirection {
            target: RedirectionTarget::Stdout,
            file: "second.txt".to_string(),
            mode: RedirectionMode::Append,
        }]
    );
}

#[test]
fn dangling_operator_is_invalid() {
    let toks = split_args("echo hi >");
    assert!(extract_redirections(&toks).is_err());
}

#[test]
fn all_six_operators_recognized() {
    for (op, target, mode) in [
        (">", RedirectionTarget::Stdout, RedirectionMode::Overwrite),
        ("1>", RedirectionTarget::Stdout, RedirectionMode::Overwrite),
        (">>", RedirectionTarget::Stdout, RedirectionMode::Append),
        ("1>>", RedirectionTarget::Stdout, RedirectionMode::Append),
        ("2>", RedirectionTarget::Stderr, RedirectionMode::Overwrite),
        ("2>>", RedirectionTarget::Stderr, RedirectionMode::Append),
    ] {
        let toks = vec![op.to_string(), "f".to_string()];
        let (clean, redirs) = extract_redirections(&toks).unwrap();
        assert!(clean.is_empty());
        assert_eq!(
            redirs,
            vec![Redirection { target, file: "f".to_string(), mode }]
        );
    }
}

#[test]
fn quoted_operator_token_still_extracted() {
    // Quotes are stripped during tokenization without marking the token, so
    // extraction sees the bare operator and consumes the following token.
    let toks = split_args("echo '>' f");
    assert_eq!(toks, vec!["echo".to_string(), ">".to_string(), "f".to_string()]);
    let (clean, redirs) = extract_redirections(&toks).unwrap();
    assert_eq!(clean, vec!["echo".to_string()]);
    assert_eq!(
        redirs,
        vec![Redirection {
            target: RedirectionTarget::Stdout,
            file: "f".to_string(),
            mode: RedirectionMode::Overwrite,
        }]
    );
}

#[test]
fn find_redirection_per_stream() {
    let toks = split_args("x 2> e.txt > o.txt");
    let (_, redirs) = extract_redirections(&toks).unwrap();
    let so = find_redirection(&redirs, RedirectionTarget::Stdout).unwrap();
    assert_eq!(so.file, "o.txt".to_string());
    let se = find_redirection(&redirs, RedirectionTarget::Stderr).unwrap();
    assert_eq!(se.file, "e.txt".to_string());
    let empty: Vec<Redirection> = Vec::new();
    let none = find_redirection(&empty, RedirectionTarget::Stdout);
    assert!(none.is_none());
}
