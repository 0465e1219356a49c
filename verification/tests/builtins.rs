use rshell::builtins::{
    candidate_path, cd_target, echo_cmd, pwd_cmd, search_path_dirs, type_cmd, CwdOutcome,
};
use rshell::redirect::RedirectionTarget;

#[test]
fn echo_appends_newline() {
    assert_eq!(echo_cmd("hi"), "hi\n".to_string());
    assert_eq!(echo_cmd(""), "\n".to_string());
}

#[test]
fn cd_without_argument_goes_home() {
    assert_eq!(cd_target("", Some("/home/u")), Some("/home/u".to_string()));
    assert_eq!(cd_target("   ", Some("/home/u")), Some("/home/u".to_string()));
    assert_eq!(cd_target("", None), None);
}

#[test]
fn cd_tilde_expansion() {
    assert_eq!(cd_target("~/proj", Some("/home/u")), Some("/home/u/proj".to_string()));
    assert_eq!(cd_target("~", Some("/home/u")), Some("/home/u".to_string()));
    assert_eq!(cd_target("~proj", Some("/home/u")), Some("/home/u/proj".to_string()));
    // Without a home location the remainder is used literally.
    assert_eq!(cd_target("~/proj", None), Some("/proj".to_string()));
}

#[test]
fn cd_plain_path_used_as_given() {
    assert_eq!(cd_target("/tmp", None), Some("/tmp".to_string()));
    assert_eq!(cd_target("sub/dir", Some("/home/u")), Some("sub/dir".to_string()));
}

#[test]
fn candidate_paths() {
    assert_eq!(candidate_path("/usr/bin", "ls"), "/usr/bin/ls".to_string());
    assert_eq!(candidate_path("/usr/bin/", "ls"), "/usr/bin/ls".to_string());
    assert_eq!(candidate_path("", "ls"), "ls".to_string());
    assert_eq!(candidate_path("/usr/bin", "/abs/x"), "/abs/x".to_string());
}

#[test]
fn search_path_split_keeps_order_and_empties() {
    assert_eq!(
        search_path_dirs("/usr/bin:/bin::/opt"),
        vec![
            "/usr/bin".to_string(),
            "/bin".to_string(),
            "".to_string(),
            "/opt".to_string(),
        ]
    );
}

#[test]
fn type_reports_external_path() {
    let r = type_cmd("ls", Some("/usr/bin/ls".to_string()));
    assert_eq!(r, (RedirectionTarget::Stdout, "ls is /usr/bin/ls".to_string()));
}

#[test]
fn type_reports_builtin() {
    let r = type_cmd("echo", None);
    assert_eq!(r, (RedirectionTarget::Stdout, "echo is a shell builtin".to_string()));
}

#[test]
fn type_reports_not_found_on_error_stream() {
    let r = type_cmd("doesnotexist123", None);
    assert_eq!(r, (RedirectionTarget::Stderr, "doesnotexist123: not found".to_string()));
}

#[test]
fn type_of_empty_query_is_not_found() {
    // An empty query resolves to nothing, and reports so on the error stream.
    assert_eq!(type_cmd("", None), (RedirectionTarget::Stderr, ": not found".to_string()));
}

#[test]
fn type_of_quoted_emptiness_is_not_found() {
    // `''` tokenizes to no clean tokens: the query resolves to nothing.
    let r = type_cmd("''", None);
    assert_eq!(r, (RedirectionTarget::Stderr, "'': not found".to_string()));
}

#[test]
fn pwd_reports_the_path_on_stdout() {
    let r = pwd_cmd(CwdOutcome::Path("/work/dir".to_string()));
    assert_eq!(r, (RedirectionTarget::Stdout, "/work/dir".to_string()));
}

#[test]
fn pwd_reports_failures_on_stderr() {
    assert_eq!(
        pwd_cmd(CwdOutcome::NotText),
        (RedirectionTarget::Stderr, "pwd: unable to convert path to string".to_string())
    );
    assert_eq!(
        pwd_cmd(CwdOutcome::Failed("gone".to_string())),
        (
            RedirectionTarget::Stderr,
            "pwd: error retrieving current directory: gone".to_string()
        )
    );
}
