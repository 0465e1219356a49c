//! The pure decision logic of the builtin commands: what `echo` writes, where
//! `cd` goes, what `type` reports, and how an external name turns into the
//! candidate paths that the search walks.

use vstd::prelude::*;
use crate::command::parse_spec;
use crate::command::Command;
use crate::command::CommandV;
use crate::error::error_message_spec;
use crate::error::CommandError;
use crate::error::CommandErrorV;
use crate::redirect::RedirectionTarget;
use crate::tokenize::chars_to_string;
use crate::tokenize::concat_str;
use crate::tokenize::str_chars;
use crate::tokenize::trim_chars;
use crate::tokenize::trim_spec;

verus! {

/// What `echo` writes to its stdout destination: the message and a newline.
pub open spec fn echo_output_spec(message: Seq<char>) -> Seq<char> {
    message + seq!['\n']
}

/// The bytes `echo` writes: the message followed by a single newline.
pub fn echo_cmd(message: &str) -> (r: String)
    ensures
        r@ == echo_output_spec(message@),
{
    let mut cs = str_chars(message);
    cs.push('\n');
    chars_to_string(&cs)
}

/// `home` followed by `rest` as a sub-path: a separator is inserted unless
/// one is already there or `rest` is empty.
pub open spec fn join_home_spec(home: Seq<char>, rest: Seq<char>) -> Seq<char> {
    if rest.len() == 0 {
        home
    } else if rest[0] == '/' {
        home + rest
    } else {
        home + seq!['/'] + rest
    }
}

/// The directory `cd` changes to, given the raw argument text and the home
/// location, if one is set.
///
/// An empty argument means the home location (`None` when it is absent, a
/// failure the caller reports). A leading `~` is replaced by the home
/// location with the remainder appended as a sub-path; without a home
/// location the remainder is used literally. Any other argument is used as
/// given.
pub open spec fn cd_target_spec(path: Seq<char>, home: Option<Seq<char>>) -> Option<Seq<char>> {
    let p = trim_spec(path);
    if p.len() == 0 {
        home
    } else if p[0] == '~' {
        match home {
            Some(h) => Some(join_home_spec(h, p.drop_first())),
            None => Some(p.drop_first()),
        }
    } else {
        Some(p)
    }
}

/// Resolve the directory that `cd` changes to. `None` means the home
/// location was needed but is not set.
pub fn cd_target(path: &str, home: Option<&str>) -> (r: Option<String>)
    ensures
        match r {
            Some(t) => cd_target_spec(path@, home.deep_view()) == Some(t@),
            None => cd_target_spec(path@, home.deep_view()) is None,
        },
{
    let cs = str_chars(path);
    let p = trim_chars(&cs);
    if p.len() == 0 {
        match home {
            Some(h) => Some(h.to_owned()),
            None => None,
        }
    } else if p[0] == '~' {
        let mut rest: Vec<char> = Vec::new();
        let mut i: usize = 1;
        while i < p.len()
            invariant
                1 <= i <= p@.len(),
                rest@ =~= p@.subrange(1, i as int),
            decreases p@.len() - i,
        {
            rest.push(p[i]);
            proof {
                assert(rest@ =~= p@.subrange(1, i as int + 1));
            }
            i = i + 1;
        }
        proof {
            assert(p@.subrange(1, p@.len() as int) =~= p@.drop_first());
        }
        match home {
            Some(h) => {
                let mut out = str_chars(h);
                if rest.len() > 0 {
                    if rest[0] != '/' {
                        out.push('/');
                    }
                    let mut tail = rest;
                    out.append(&mut tail);
                }
                Some(chars_to_string(&out))
            },
            None => Some(chars_to_string(&rest)),
        }
    } else {
        Some(chars_to_string(&p))
    }
}

/// The outcome of asking the platform for the current working directory:
/// the path as text, a path that cannot be represented as text, or a lookup
/// failure with the platform's error text.
#[derive(Debug)]
pub enum CwdOutcome {
    Path(String),
    NotText,
    Failed(String),
}

/// What `pwd` reports for a working-directory lookup outcome: the path goes
/// to the stdout destination; either failure is reported to the stderr
/// destination.
pub open spec fn pwd_report_spec(outcome: CwdOutcome) -> (RedirectionTarget, Seq<char>) {
    match outcome {
        CwdOutcome::Path(p) => (RedirectionTarget::Stdout, p@),
        CwdOutcome::NotText => (
            RedirectionTarget::Stderr,
            "pwd: unable to convert path to string"@,
        ),
        CwdOutcome::Failed(e) => (
            RedirectionTarget::Stderr,
            "pwd: error retrieving current directory: "@ + e@,
        ),
    }
}

/// Resolve what `pwd` writes, and to which stream, for a working-directory
/// lookup outcome.
pub fn pwd_cmd(outcome: CwdOutcome) -> (r: (RedirectionTarget, String))
    ensures
        r.0 == pwd_report_spec(outcome).0,
        r.1@ == pwd_report_spec(outcome).1,
{
    match outcome {
        CwdOutcome::Path(p) => (RedirectionTarget::Stdout, p),
        CwdOutcome::NotText => (
            RedirectionTarget::Stderr,
            "pwd: unable to convert path to string".to_owned(),
        ),
        CwdOutcome::Failed(e) => (
            RedirectionTarget::Stderr,
            concat_str("pwd: error retrieving current directory: ", e.as_str()),
        ),
    }
}

/// The candidate path for a command name inside one search directory, the
/// way a path join builds it: an absolute name stands alone, an empty
/// directory leaves the name relative, and a separator is inserted unless
/// the directory already ends with one.
pub open spec fn candidate_path_spec(dir: Seq<char>, name: Seq<char>) -> Seq<char> {
    if name.len() > 0 && name[0] == '/' {
        name
    } else if dir.len() == 0 {
        name
    } else if dir.last() == '/' {
        dir + name
    } else {
        dir + seq!['/'] + name
    }
}

/// The path to probe for `name` inside the search directory `dir`.
pub fn candidate_path(dir: &str, name: &str) -> (r: String)
    ensures
        r@ == candidate_path_spec(dir@, name@),
{
    let ncs = str_chars(name);
    let dcs = str_chars(dir);
    if ncs.len() > 0 && ncs[0] == '/' {
        name.to_owned()
    } else if dcs.len() == 0 {
        name.to_owned()
    } else {
        let mut out = dcs;
        if out[out.len() - 1] != '/' {
            out.push('/');
        }
        let mut tail = ncs;
        out.append(&mut tail);
        chars_to_string(&out)
    }
}

/// The pieces of a search-path variable, split on `:`; empty pieces are
/// kept, from position `i` onward with `cur` partially read.
pub open spec fn split_colon_from(s: Seq<char>, i: int, cur: Seq<char>) -> Seq<Seq<char>>
    decreases s.len() - i,
{
    if i < 0 || i >= s.len() {
        seq![cur]
    } else if s[i] == ':' {
        seq![cur] + split_colon_from(s, i + 1, Seq::empty())
    } else {
        split_colon_from(s, i + 1, cur.push(s[i]))
    }
}

/// The directories named by a search-path variable, in listed order.
pub open spec fn split_colon_spec(s: Seq<char>) -> Seq<Seq<char>> {
    split_colon_from(s, 0, Seq::empty())
}

/// Split a search-path variable into its directories, in listed order.
pub fn search_path_dirs(path_var: &str) -> (r: Vec<String>)
    ensures
        r.deep_view() == split_colon_spec(path_var@),
{
    let cs = str_chars(path_var);
    let n = cs.len();
    let mut out: Vec<String> = Vec::new();
    let mut cur: Vec<char> = Vec::new();
    let mut i: usize = 0;
    proof {
        assert(out.deep_view() =~= Seq::<Seq<char>>::empty());
    }
    while i < n
        invariant
            0 <= i <= n,
            n == cs@.len(),
            cs@ == path_var@,
            split_colon_spec(path_var@) == out.deep_view() + split_colon_from(
                cs@,
                i as int,
                cur@,
            ),
        decreases n - i,
    {
        if cs[i] == ':' {
            let piece = chars_to_string(&cur);
            let ghost old_out = out.deep_view();
            let ghost old_cur = cur@;
            out.push(piece);
            cur = Vec::new();
            proof {
                assert(out.deep_view() =~= old_out.push(old_cur));
                assert(old_out + (seq![old_cur] + split_colon_from(
                    cs@,
                    i as int + 1,
                    Seq::empty(),
                )) =~= old_out.push(old_cur) + split_colon_from(cs@, i as int + 1, Seq::empty()));
            }
        } else {
            cur.push(cs[i]);
        }
        i = i + 1;
    }
    let piece = chars_to_string(&cur);
    let ghost old_out = out.deep_view();
    let ghost old_cur = cur@;
    out.push(piece);
    proof {
        assert(out.deep_view() =~= old_out.push(old_cur));
        assert(old_out + seq![old_cur] =~= old_out.push(old_cur));
    }
    out
}

/// What `type` reports for a query, given the search-path lookup outcome for
/// the query's own leading token: the stream to write to and the message.
/// An empty query resolves to nothing and reports "not found", like any
/// other failed resolution.
pub open spec fn type_report_spec(query: Seq<char>, resolved: Option<Seq<char>>) -> (
    RedirectionTarget,
    Seq<char>,
) {
    match parse_spec(query, resolved) {
        Ok(CommandV::External { path, .. }) => (RedirectionTarget::Stdout, query + " is "@ + path),
        Ok(CommandV::Noop) => (RedirectionTarget::Stderr, query + ": not found"@),
        Ok(_) => (RedirectionTarget::Stdout, query + " is a shell builtin"@),
        Err(CommandErrorV::NotFound(_)) => (RedirectionTarget::Stderr, query + ": not found"@),
        Err(e) => (RedirectionTarget::Stderr, "type: error: "@ + error_message_spec(e)),
    }
}

/// Resolve a `type` query: re-resolve the queried text as a fresh command
/// line, without redirections, and report what it is.
pub fn type_cmd(query: &str, resolved: Option<String>) -> (r: (RedirectionTarget, String))
    ensures
        r.0 == type_report_spec(query@, resolved.deep_view()).0,
        r.1@ == type_report_spec(query@, resolved.deep_view()).1,
{
    match Command::from(query, resolved) {
        Ok(Command::External { path, .. }) => {
            let head = concat_str(query, " is ");
            (RedirectionTarget::Stdout, concat_str(head.as_str(), path.as_str()))
        },
        Ok(Command::Noop) => (RedirectionTarget::Stderr, concat_str(query, ": not found")),
        Ok(_) => (RedirectionTarget::Stdout, concat_str(query, " is a shell builtin")),
        Err(CommandError::NotFound(_)) => (
            RedirectionTarget::Stderr,
            concat_str(query, ": not found"),
        ),
        Err(e) => {
            let m = e.message();
            (RedirectionTarget::Stderr, concat_str("type: error: ", m.as_str()))
        },
    }
}

} // verus!
