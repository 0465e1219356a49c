use rshell::command::{builtin_name, builtin_names, external_query, Command};
use rshell::error::CommandError;
use rshell::redirect::{Redirection, RedirectionMode, RedirectionTarget};

#[test]
fn empty_line_is_noop() {
    assert_eq!(Command::from("", None), Ok(Command::Noop));
    assert_eq!(Command::from("   ", None), Ok(Command::Noop));
}

#[test]
fn redirections_alone_are_noop() {
    assert_eq!(Command::from("> f.txt", None), Ok(Command::Noop));
}

#[test]
fn echo_takes_rejoined_arguments() {
    let cmd = Command::from("echo   hello    world", None).unwrap();
    assert_eq!(
        cmd,
        Command::Echo { message: "hello world".to_string(), redirections: Vec::new() }
    );
}

#[test]
fn echo_with_redirection() {
    let cmd = Command::from("echo hi > out.txt", None).unwrap();
    assert_eq!(
        cmd,
        Command::Echo {
            message: "hi".to_string(),
            redirections: vec![Redirection {
                target: RedirectionTarget::Stdout,
                file: "out.txt".to_string(),
                mode: RedirectionMode::Overwrite,
            }],
        }
    );
}

#[test]
fn redirection_may_precede_the_command_name() {
    let cmd = Command::from("> f.txt echo hi", None).unwrap();
    assert_eq!(
        cmd,
        Command::Echo {
            message: "hi".to_string(),
            redirections: vec![Redirection {
                target: RedirectionTarget::Stdout,
                file: "f.txt".to_string(),
                mode: RedirectionMode::Overwrite,
            }],
        }
    );
}

#[test]
fn later_stdout_redirection_supersedes_earlier_in_command() {
    let cmd = Command::from("echo hi > first.txt 1>> second.txt", None).unwrap();
    assert_eq!(
        cmd,
        Command::Echo {
            message: "hi".to_string(),
            redirections: vec![Redirection {
                target: RedirectionTarget::Stdout,
                file: "second.txt".to_string(),
                mode: RedirectionMode::Append,
            }],
        }
    );
}

#[test]
fn exit_parses_integer_argument() {
    assert_eq!(Command::from("exit 7", None), Ok(Command::Exit(7)));
    assert_eq!(Command::from("exit -3", None), Ok(Command::Exit(-3)));
    assert_eq!(Command::from("exit +12", None), Ok(Command::Exit(12)));
    assert_eq!(Command::from("exit 2147483647", None), Ok(Command::Exit(i32::MAX)));
    assert_eq!(Command::from("exit -2147483648", None), Ok(Command::Exit(i32::MIN)));
}

#[test]
fn exit_rejects_non_integer() {
    // The failure is a parse-time error: no Exit command is built, so the
    // process is not terminated.
    assert_eq!(
        Command::from("exit abc", None),
        Err(CommandError::InvalidArguments("exit".to_string()))
    );
    assert_eq!(
        Command::from("exit", None),
        Err(CommandError::InvalidArguments("exit".to_string()))
    );
    assert_eq!(
        Command::from("exit 1 2", None),
        Err(CommandError::InvalidArguments("exit".to_string()))
    );
    assert_eq!(
        Command::from("exit 2147483648", None),
        Err(CommandError::InvalidArguments("exit".to_string()))
    );
    assert_eq!(
        Command::from("exit -2147483649", None),
        Err(CommandError::InvalidArguments("exit".to_string()))
    );
}

#[test]
fn pwd_takes_no_arguments() {
    assert_eq!(Command::from("pwd", None), Ok(Command::Pwd { redirections: Vec::new() }));
    assert_eq!(
        Command::from("pwd extra", None),
        Err(CommandError::InvalidArguments("pwd".to_string()))
    );
}

#[test]
fn cd_keeps_path_verbatim() {
    assert_eq!(Command::from("cd /tmp", None), Ok(Command::Cd("/tmp".to_string())));
    assert_eq!(Command::from("cd", None), Ok(Command::Cd("".to_string())));
}

#[test]
fn type_takes_trimmed_query() {
    assert_eq!(
        Command::from("type ls", None),
        Ok(Command::Type { cmd: "ls".to_string(), redirections: Vec::new() })
    );
}

#[test]
fn unknown_name_without_resolution_is_not_found() {
    assert_eq!(
        Command::from("doesnotexist123", None),
        Err(CommandError::NotFound("doesnotexist123".to_string()))
    );
}

#[test]
fn resolved_name_becomes_external() {
    let cmd = Command::from("mybin -x file > out.txt", Some("/opt/tools/mybin".to_string()));
    assert_eq!(
        cmd,
        Ok(Command::External {
            cmd: "mybin".to_string(),
            args: vec!["-x".to_string(), "file".to_string()],
            path: "/opt/tools/mybin".to_string(),
            redirections: vec![Redirection {
                target: RedirectionTarget::Stdout,
                file: "out.txt".to_string(),
                mode: RedirectionMode::Overwrite,
            }],
        })
    );
}

#[test]
fn external_overwrite_redirection_recorded_without_output() {
    // The Overwrite redirection is part of the command even though nothing
    // may ever be written: the executor opens it eagerly.
    let cmd = Command::from("quietprog > target.txt", Some("/bin/quietprog".to_string())).unwrap();
    match cmd {
        Command::External { redirections, .. } => {
            assert_eq!(redirections.len(), 1);
            assert_eq!(redirections[0].mode, RedirectionMode::Overwrite);
            assert_eq!(redirections[0].file, "target.txt".to_string());
        },
        other => panic!("expected an external command, got {:?}", other),
    }
}

#[test]
fn dangling_redirection_is_invalid_arguments() {
    assert_eq!(
        Command::from("echo hi 2>", None),
        Err(CommandError::InvalidArguments("Missing file for redirection".to_string()))
    );
}

#[test]
fn reparsing_gives_identical_commands() {
    for line in ["echo 'a  b' > f.txt", "exit 3", "pwd", "cd ~/x", "type echo", "", "> f"] {
        let first = Command::from(line, None);
        let second = Command::from(line, None);
        assert_eq!(first, second);
    }
    let resolved = Some("/usr/bin/ls".to_string());
    let first = Command::from("ls -l", resolved.clone());
    let second = Command::from("ls -l", resolved);
    assert_eq!(first, second);
}

#[test]
fn external_query_names_the_lookup() {
    assert_eq!(external_query("ls -l"), Some("ls".to_string()));
    assert_eq!(external_query("echo hi"), None);
    assert_eq!(external_query(""), None);
    assert_eq!(external_query("exit zzz"), None);
}

#[test]
fn builtin_names_listed() {
    let names = builtin_names();
    assert_eq!(
        names,
        vec![
            "exit".to_string(),
            "echo".to_string(),
            "type".to_string(),
            "pwd".to_string(),
            "cd".to_string(),
        ]
    );
}

#[test]
fn builtin_name_is_case_sensitive() {
    for name in ["exit", "echo", "type", "pwd", "cd"] {
        assert!(builtin_name(&name.to_string()));
    }
    assert!(!builtin_name(&"Echo".to_string()));
    assert!(!builtin_name(&"ls".to_string()));
}

#[test]
fn error_messages() {
    assert_eq!(
        CommandError::NotFound("x".to_string()).message(),
        "x: command not found".to_string()
    );
    assert_eq!(
        CommandError::InvalidArguments("pwd".to_string()).message(),
        "Invalid arguments for command 'pwd'".to_string()
    );
}
