//! The typed command model: a raw line is tokenized, its redirections are
//! extracted, and the leading token is classified against the builtin names
//! or resolved on the search path.

use vstd::prelude::*;
use crate::error::CommandError;
use crate::error::CommandErrorV;
use crate::numbers::parse_i32;
use crate::numbers::parse_i32_spec;
use crate::redirect::extract_core;
use crate::redirect::extract_from;
use crate::redirect::is_redir_op;
use crate::redirect::is_stdout_op;
use crate::redirect::lemma_extract_redirs_wf;
use crate::redirect::lemma_stdout_last_wins;
use crate::redirect::op_mode;
use crate::redirect::redirs_seq;
use crate::redirect::wf_redirections;
use crate::redirect::Redirection;
use crate::redirect::RedirectionTarget;
use crate::redirect::RedirectionV;
use crate::tokenize::join_spaces;
use crate::tokenize::join_spaces_spec;
use crate::tokenize::chars_to_string;
use crate::tokenize::split_args;
use crate::tokenize::str_chars;
use crate::tokenize::str_is;
use crate::tokenize::tokens_of;
use crate::tokenize::trim_chars;
use crate::tokenize::trim_spec;

verus! {

/// A fully resolved command, built once per input line and consumed once by
/// the executor. Each `redirections` vector holds at most one entry per
/// stream, the Stdout entry first.
#[derive(Debug, PartialEq, Eq)]
pub enum Command {
    /// An empty input line.
    Noop,
    /// `exit <code>`: terminate the interactive loop with the given code.
    Exit(i32),
    /// `cd <path>`: change the working directory.
    Cd(String),
    /// `echo <text>`: write the text and a newline to standard output.
    Echo { message: String, redirections: Vec<Redirection> },
    /// `type <name>`: report how the name would resolve.
    Type { cmd: String, redirections: Vec<Redirection> },
    /// `pwd`: write the working directory to standard output.
    Pwd { redirections: Vec<Redirection> },
    /// A program found on the search path: the literal typed name, the
    /// remaining tokens as arguments, and the resolved path.
    External { cmd: String, args: Vec<String>, path: String, redirections: Vec<Redirection> },
}

/// The mathematical value of a `Command`.
pub enum CommandV {
    Noop,
    Exit(int),
    Cd(Seq<char>),
    Echo { message: Seq<char>, redirections: Seq<RedirectionV> },
    Type { cmd: Seq<char>, redirections: Seq<RedirectionV> },
    Pwd { redirections: Seq<RedirectionV> },
    External {
        cmd: Seq<char>,
        args: Seq<Seq<char>>,
        path: Seq<char>,
        redirections: Seq<RedirectionV>,
    },
}

impl View for Command {
    type V = CommandV;

    open spec fn view(&self) -> CommandV {
        match self {
            Command::Noop => CommandV::Noop,
            Command::Exit(code) => CommandV::Exit(*code as int),
            Command::Cd(path) => CommandV::Cd(path@),
            Command::Echo { message, redirections } => CommandV::Echo {
                message: message@,
                redirections: redirections.deep_view(),
            },
            Command::Type { cmd, redirections } => CommandV::Type {
                cmd: cmd@,
                redirections: redirections.deep_view(),
            },
            Command::Pwd { redirections } => CommandV::Pwd {
                redirections: redirections.deep_view(),
            },
            Command::External { cmd, args, path, redirections } => CommandV::External {
                cmd: cmd@,
                args: args.deep_view(),
                path: path@,
                redirections: redirections.deep_view(),
            },
        }
    }
}

impl DeepView for Command {
    type V = CommandV;

    open spec fn deep_view(&self) -> CommandV {
        self.view()
    }
}

impl CommandV {
    /// The redirection set a command carries; the variants without one carry
    /// the empty set.
    pub open spec fn redirections(self) -> Seq<RedirectionV> {
        match self {
            CommandV::Noop => Seq::empty(),
            CommandV::Exit(_) => Seq::empty(),
            CommandV::Cd(_) => Seq::empty(),
            CommandV::Echo { redirections, .. } => redirections,
            CommandV::Type { redirections, .. } => redirections,
            CommandV::Pwd { redirections } => redirections,
            CommandV::External { redirections, .. } => redirections,
        }
    }

    /// The model invariant: at most one redirection per stream, Stdout first.
    pub open spec fn well_formed(self) -> bool {
        wf_redirections(self.redirections())
    }
}

/// Every command that parsing builds is well formed: its redirection set
/// holds at most one entry per stream, the Stdout entry first.
pub proof fn lemma_parse_well_formed(line: Seq<char>, resolved: Option<Seq<char>>)
    ensures
        parse_spec(line, resolved) matches Ok(c) ==> c.well_formed(),
{
    let toks = tokens_of(trim_spec(line));
    lemma_extract_redirs_wf(toks);
}

/// The builtin-name tokens that the dispatch order must tell apart.
proof fn lemma_builtin_tokens_distinct()
    ensures
        "type"@ != "echo"@,
        "type"@ != "exit"@,
        "pwd"@ != "echo"@,
        "pwd"@ != "exit"@,
        "pwd"@ != "type"@,
{
    reveal_strlit("echo");
    reveal_strlit("exit");
    reveal_strlit("type");
    reveal_strlit("pwd");
    assert("echo"@.len() == 4);
    assert("exit"@.len() == 4);
    assert("type"@.len() == 4);
    assert("pwd"@.len() == 3);
    assert("echo"@[0] == 'e');
    assert("exit"@[0] == 'e');
    assert("type"@[0] == 't');
}

/// The last Stdout redirection wins at the command level: for a line whose
/// tokens, after trimming, hold two Stdout operator/filename pairs, the
/// parsed command carries exactly one Stdout redirection, taken from the
/// later pair; the earlier pair is removed from the tokens and discarded.
///
/// Stated for the lines that resolve to a command carrying a redirection
/// set: `echo` and `type` with any arguments, `pwd` with none, and an
/// external word whose search-path lookup succeeded. (An unresolvable word
/// fails with `NotFound`, and `exit` and `cd` commands carry no
/// redirections at all.)
pub proof fn lemma_parse_stdout_last_wins(
    line: Seq<char>,
    resolved: Option<Seq<char>>,
    a: Seq<Seq<char>>,
    op1: Seq<char>,
    f1: Seq<char>,
    b: Seq<Seq<char>>,
    op2: Seq<char>,
    f2: Seq<char>,
    c: Seq<Seq<char>>,
)
    requires
        tokens_of(trim_spec(line)) == a + seq![op1, f1] + b + seq![op2, f2] + c,
        is_stdout_op(op1),
        is_stdout_op(op2),
        !is_redir_op(f1),
        !is_redir_op(f2),
        forall|i: int| 0 <= i < a.len() ==> !is_redir_op(#[trigger] a[i]),
        forall|i: int| 0 <= i < b.len() ==> !is_redir_op(#[trigger] b[i]),
        forall|i: int| 0 <= i < c.len() ==> !is_redir_op(#[trigger] c[i]),
        a.len() > 0,
        a[0] == "echo"@ || a[0] == "type"@ || (a == seq!["pwd"@] && b.len() == 0 && c.len() == 0)
            || (!is_builtin_name(a[0]) && resolved is Some),
    ensures
        parse_spec(line, resolved) matches Ok(cmd) && cmd.redirections() == seq![
            RedirectionV { target: RedirectionTarget::Stdout, file: f2, mode: op_mode(op2) },
        ],
{
    lemma_stdout_last_wins(a, op1, f1, b, op2, f2, c);
    lemma_builtin_tokens_distinct();
    let r2 = RedirectionV { target: RedirectionTarget::Stdout, file: f2, mode: op_mode(op2) };
    let clean = a + b + c;
    assert(clean[0] == a[0]);
    assert(redirs_seq(Some(r2), None) =~= seq![r2]);
    if a == seq!["pwd"@] && b.len() == 0 && c.len() == 0 {
        assert(clean =~= seq!["pwd"@]);
        assert(clean.skip(1) =~= Seq::<Seq<char>>::empty());
        assert(join_spaces_spec(clean.skip(1)) =~= Seq::<char>::empty());
        assert(trim_spec(Seq::<char>::empty()).len() == 0);
    }
}

/// The fixed builtin names, matched case-sensitively.
pub open spec fn is_builtin_name(t: Seq<char>) -> bool {
    t == "exit"@ || t == "echo"@ || t == "type"@ || t == "pwd"@ || t == "cd"@
}

/// Whether the given name is one of the fixed builtins.
pub fn builtin_name(t: &String) -> (r: bool)
    ensures
        r == is_builtin_name(t@),
{
    str_is(t, "exit") || str_is(t, "echo") || str_is(t, "type") || str_is(t, "pwd") || str_is(
        t,
        "cd",
    )
}

/// The fixed builtin names, for completion candidates.
pub fn builtin_names() -> (r: Vec<String>)
    ensures
        r.deep_view() == seq!["exit"@, "echo"@, "type"@, "pwd"@, "cd"@],
{
    let mut r: Vec<String> = Vec::new();
    r.push("exit".to_owned());
    r.push("echo".to_owned());
    r.push("type".to_owned());
    r.push("pwd".to_owned());
    r.push("cd".to_owned());
    proof {
        assert(r.deep_view() =~= seq!["exit"@, "echo"@, "type"@, "pwd"@, "cd"@]);
    }
    r
}

/// What a raw line resolves to, given the outcome `resolved` of looking the
/// leading token up on the search path (`None` when it is absent there, or
/// when no lookup was made).
///
/// The line is trimmed, tokenized, and stripped of redirections. An empty
/// clean token stream is a `Noop`, even when redirections were present. The
/// leading token then picks a builtin, each with its own argument rule, or
/// an external command carrying `resolved` as its path.
pub open spec fn parse_spec(line: Seq<char>, resolved: Option<Seq<char>>) -> Result<
    CommandV,
    CommandErrorV,
> {
    let toks = tokens_of(trim_spec(line));
    match extract_from(toks) {
        None => Err(CommandErrorV::InvalidArguments("Missing file for redirection"@)),
        Some(ev) => {
            if ev.clean.len() == 0 {
                Ok(CommandV::Noop)
            } else {
                let cmd = ev.clean[0];
                let args = ev.clean.skip(1);
                let joined = join_spaces_spec(args);
                let redirs = redirs_seq(ev.stdout_redir, ev.stderr_redir);
                if cmd == "echo"@ {
                    Ok(CommandV::Echo { message: joined, redirections: redirs })
                } else if cmd == "exit"@ {
                    match parse_i32_spec(joined) {
                        Some(v) => Ok(CommandV::Exit(v)),
                        None => Err(CommandErrorV::InvalidArguments("exit"@)),
                    }
                } else if cmd == "type"@ {
                    Ok(CommandV::Type { cmd: trim_spec(joined), redirections: redirs })
                } else if cmd == "pwd"@ {
                    if trim_spec(joined).len() == 0 {
                        Ok(CommandV::Pwd { redirections: redirs })
                    } else {
                        Err(CommandErrorV::InvalidArguments("pwd"@))
                    }
                } else if cmd == "cd"@ {
                    Ok(CommandV::Cd(joined))
                } else {
                    match resolved {
                        Some(p) => Ok(
                            CommandV::External {
                                cmd,
                                args,
                                path: p,
                                redirections: redirs,
                            },
                        ),
                        None => Err(CommandErrorV::NotFound(cmd)),
                    }
                }
            }
        },
    }
}

/// Build an `echo` command: the rejoined arguments become the message.
pub fn parse_echo_cmd(args: &str, redirections: Vec<Redirection>) -> (r: Result<
    Command,
    CommandError,
>)
    ensures
        r matches Ok(c) && c@ == (CommandV::Echo {
            message: args@,
            redirections: redirections.deep_view(),
        }),
{
    Ok(Command::Echo { message: args.to_owned(), redirections })
}

/// Build an `exit` command: the argument must be a single decimal integer
/// that fits in an `i32`.
pub fn parse_exit_cmd(args: &str) -> (r: Result<Command, CommandError>)
    ensures
        match r {
            Ok(c) => parse_i32_spec(args@) matches Some(v) && c@ == CommandV::Exit(v),
            Err(e) => parse_i32_spec(args@) is None && e@ == CommandErrorV::InvalidArguments(
                "exit"@,
            ),
        },
{
    let cs = str_chars(args);
    match parse_i32(&cs) {
        Some(code) => Ok(Command::Exit(code)),
        None => Err(CommandError::InvalidArguments("exit".to_owned())),
    }
}

/// Build a `type` command: the query is the rejoined arguments, trimmed.
pub fn parse_type_cmd(args: &str, redirections: Vec<Redirection>) -> (r: Result<
    Command,
    CommandError,
>)
    ensures
        r matches Ok(c) && c@ == (CommandV::Type {
            cmd: trim_spec(args@),
            redirections: redirections.deep_view(),
        }),
{
    let cs = str_chars(args);
    let trimmed = trim_chars(&cs);
    Ok(Command::Type { cmd: chars_to_string(&trimmed), redirections })
}

/// Build a `pwd` command: it takes no arguments.
pub fn parse_pwd_cmd(args: &str, redirections: Vec<Redirection>) -> (r: Result<
    Command,
    CommandError,
>)
    ensures
        match r {
            Ok(c) => trim_spec(args@).len() == 0 && c@ == (CommandV::Pwd {
                redirections: redirections.deep_view(),
            }),
            Err(e) => trim_spec(args@).len() != 0 && e@ == CommandErrorV::InvalidArguments(
                "pwd"@,
            ),
        },
{
    let cs = str_chars(args);
    let trimmed = trim_chars(&cs);
    if trimmed.len() == 0 {
        Ok(Command::Pwd { redirections })
    } else {
        Err(CommandError::InvalidArguments("pwd".to_owned()))
    }
}

/// Build a `cd` command: the rejoined arguments are the path, verbatim.
pub fn parse_cd_cmd(args: &str) -> (r: Result<Command, CommandError>)
    ensures
        r matches Ok(c) && c@ == CommandV::Cd(args@),
{
    Ok(Command::Cd(args.to_owned()))
}

impl Command {
    /// Parse a raw input line into a command.
    ///
    /// `resolved` is the outcome of looking the line's leading clean token up
    /// on the search path; it is consulted only when that token is not a
    /// builtin name. Given the same line and the same lookup outcome, the
    /// result is always the same command.
    pub fn from(input: &str, resolved: Option<String>) -> (r: Result<Command, CommandError>)
        ensures
            match r {
                Ok(c) => parse_spec(input@, resolved.deep_view()) == Ok::<
                    CommandV,
                    CommandErrorV,
                >(c@),
                Err(e) => parse_spec(input@, resolved.deep_view()) == Err::<
                    CommandV,
                    CommandErrorV,
                >(e@),
            },
    {
        let cs = str_chars(input);
        let trimmed = trim_chars(&cs);
        let trimmed_str = chars_to_string(&trimmed);
        let tokens = split_args(trimmed_str.as_str());
        let (clean, so, se) = match extract_core(&tokens) {
            Ok(x) => x,
            Err(e) => {
                return Err(e);
            },
        };
        let ghost sov = so.deep_view();
        let ghost sev = se.deep_view();
        let mut redirections: Vec<Redirection> = Vec::new();
        if let Some(rd) = so {
            redirections.push(rd);
        }
        if let Some(rd) = se {
            redirections.push(rd);
        }
        proof {
            assert(redirections.deep_view() =~= redirs_seq(sov, sev));
        }
        if clean.len() == 0 {
            return Ok(Command::Noop);
        }
        let mut args: Vec<String> = Vec::new();
        let mut j: usize = 1;
        while j < clean.len()
            invariant
                1 <= j <= clean@.len(),
                args.deep_view() =~= clean.deep_view().subrange(1, j as int),
            decreases clean@.len() - j,
        {
            let ghost old_args = args.deep_view();
            args.push(clean[j].clone());
            proof {
                assert(args.deep_view() =~= old_args.push(clean.deep_view()[j as int]));
                assert(args.deep_view() =~= clean.deep_view().subrange(1, j as int + 1));
            }
            j = j + 1;
        }
        proof {
            assert(clean.deep_view().subrange(1, clean@.len() as int) =~= clean.deep_view().skip(
                1,
            ));
        }
        let joined = join_spaces(&args);
        let cmd = &clean[0];
        if str_is(cmd, "echo") {
            parse_echo_cmd(joined.as_str(), redirections)
        } else if str_is(cmd, "exit") {
            parse_exit_cmd(joined.as_str())
        } else if str_is(cmd, "type") {
            parse_type_cmd(joined.as_str(), redirections)
        } else if str_is(cmd, "pwd") {
            parse_pwd_cmd(joined.as_str(), redirections)
        } else if str_is(cmd, "cd") {
            parse_cd_cmd(joined.as_str())
        } else {
            match resolved {
                Some(p) => Ok(
                    Command::External { cmd: clean[0].clone(), args, path: p, redirections },
                ),
                None => Err(CommandError::NotFound(clean[0].clone())),
            }
        }
    }
}

/// The name that must be looked up on the search path before `Command::from`
/// can resolve this line, if there is one: the leading clean token when it is
/// neither empty nor a builtin name.
pub fn external_query(input: &str) -> (r: Option<String>)
    ensures
        match r {
            Some(name) => parse_spec(input@, None) == Err::<CommandV, CommandErrorV>(
                CommandErrorV::NotFound(name@),
            ),
            None => !(parse_spec(input@, None) matches Err(CommandErrorV::NotFound(_))),
        },
{
    match Command::from(input, None) {
        Err(CommandError::NotFound(name)) => Some(name),
        _ => None,
    }
}

} // verus!
