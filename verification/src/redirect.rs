//! Redirections: the operator grammar, and the extraction pass that removes
//! operator/filename pairs from a token stream, keeping at most one
//! redirection per output stream (the last one named wins).

use vstd::prelude::*;
use crate::error::CommandError;
use crate::error::CommandErrorV;
use crate::tokenize::str_is;

verus! {

broadcast use vstd::string::group_string_axioms;

/// Whether a redirection truncates the target file or appends to it.
#[derive(Debug, Clone, Copy, PartialEq, Eq, Structural)]
pub enum RedirectionMode {
    /// `>`, `1>`, `2>`: create the file, or truncate it if it exists.
    Overwrite,
    /// `>>`, `1>>`, `2>>`: create the file if absent and write at its end.
    Append,
}

/// The output stream a redirection affects.
#[derive(Debug, Clone, Copy, PartialEq, Eq, Structural)]
pub enum RedirectionTarget {
    Stdout,
    Stderr,
}

/// One redirection: which stream goes to which file, and how the file is
/// opened.
#[derive(Debug, PartialEq, Eq)]
pub struct Redirection {
    pub target: RedirectionTarget,
    pub file: String,
    pub mode: RedirectionMode,
}

/// The mathematical value of a `Redirection`.
pub struct RedirectionV {
    pub target: RedirectionTarget,
    pub file: Seq<char>,
    pub mode: RedirectionMode,
}

impl View for Redirection {
    type V = RedirectionV;

    open spec fn view(&self) -> RedirectionV {
        RedirectionV { target: self.target, file: self.file@, mode: self.mode }
    }
}

impl DeepView for Redirection {
    type V = RedirectionV;

    open spec fn deep_view(&self) -> RedirectionV {
        self.view()
    }
}

/// The exact operator tokens that redirect standard output.
pub open spec fn is_stdout_op(t: Seq<char>) -> bool {
    t == ">"@ || t == "1>"@ || t == ">>"@ || t == "1>>"@
}

/// The exact operator tokens that redirect standard error.
pub open spec fn is_stderr_op(t: Seq<char>) -> bool {
    t == "2>"@ || t == "2>>"@
}

/// The exact literal tokens recognized as redirection operators.
pub open spec fn is_redir_op(t: Seq<char>) -> bool {
    is_stdout_op(t) || is_stderr_op(t)
}

/// The stream an operator token redirects.
pub open spec fn op_target(t: Seq<char>) -> RedirectionTarget {
    if is_stderr_op(t) {
        RedirectionTarget::Stderr
    } else {
        RedirectionTarget::Stdout
    }
}

/// The mode an operator token opens the target file with.
pub open spec fn op_mode(t: Seq<char>) -> RedirectionMode {
    if t == ">>"@ || t == "1>>"@ || t == "2>>"@ {
        RedirectionMode::Append
    } else {
        RedirectionMode::Overwrite
    }
}

/// The outcome of redirection extraction: the clean tokens, and at most one
/// redirection per stream.
pub struct ExtractionV {
    pub clean: Seq<Seq<char>>,
    pub stdout_redir: Option<RedirectionV>,
    pub stderr_redir: Option<RedirectionV>,
}

/// Extraction over a token sequence. `None` stands for the failure on a
/// recognized operator with no filename after it. Scanning left to right, an
/// operator consumes the following token as its filename; when two operators
/// name the same stream, the later pair supersedes the earlier one.
pub open spec fn extract_from(toks: Seq<Seq<char>>) -> Option<ExtractionV>
    decreases toks.len(),
{
    if toks.len() == 0 {
        Some(ExtractionV { clean: Seq::empty(), stdout_redir: None, stderr_redir: None })
    } else if is_redir_op(toks[0]) {
        if toks.len() == 1 {
            None
        } else {
            match extract_from(toks.skip(2)) {
                Some(rest) => {
                    let r = RedirectionV {
                        target: op_target(toks[0]),
                        file: toks[1],
                        mode: op_mode(toks[0]),
                    };
                    if op_target(toks[0]) == RedirectionTarget::Stdout {
                        Some(
                            ExtractionV {
                                clean: rest.clean,
                                stdout_redir: if rest.stdout_redir is Some {
                                    rest.stdout_redir
                                } else {
                                    Some(r)
                                },
                                stderr_redir: rest.stderr_redir,
                            },
                        )
                    } else {
                        Some(
                            ExtractionV {
                                clean: rest.clean,
                                stdout_redir: rest.stdout_redir,
                                stderr_redir: if rest.stderr_redir is Some {
                                    rest.stderr_redir
                                } else {
                                    Some(r)
                                },
                            },
                        )
                    }
                },
                None => None,
            }
        }
    } else {
        match extract_from(toks.skip(1)) {
            Some(rest) => Some(
                ExtractionV {
                    clean: seq![toks[0]] + rest.clean,
                    stdout_redir: rest.stdout_redir,
                    stderr_redir: rest.stderr_redir,
                },
            ),
            None => None,
        }
    }
}

/// The six operator tokens are pairwise distinct.
pub proof fn lemma_op_tokens_distinct()
    ensures
        ">"@ != "1>"@,
        ">"@ != ">>"@,
        ">"@ != "1>>"@,
        ">"@ != "2>"@,
        ">"@ != "2>>"@,
        "1>"@ != ">>"@,
        "1>"@ != "1>>"@,
        "1>"@ != "2>"@,
        "1>"@ != "2>>"@,
        ">>"@ != "1>>"@,
        ">>"@ != "2>"@,
        ">>"@ != "2>>"@,
        "1>>"@ != "2>"@,
        "1>>"@ != "2>>"@,
        "2>"@ != "2>>"@,
{
    reveal_strlit(">");
    reveal_strlit("1>");
    reveal_strlit(">>");
    reveal_strlit("1>>");
    reveal_strlit("2>");
    reveal_strlit("2>>");
    assert(">"@.len() == 1);
    assert("1>"@.len() == 2);
    assert(">>"@.len() == 2);
    assert("1>>"@.len() == 3);
    assert("2>"@.len() == 2);
    assert("2>>"@.len() == 3);
    assert("1>"@[0] == '1');
    assert(">>"@[0] == '>');
    assert("2>"@[0] == '2');
    assert("1>>"@[0] == '1');
    assert("2>>"@[0] == '2');
}

/// Classify a token as a redirection operator, if it is one.
fn classify_op(t: &String) -> (r: Option<(RedirectionTarget, RedirectionMode)>)
    ensures
        match r {
            Some(p) => is_redir_op(t@) && p.0 == op_target(t@) && p.1 == op_mode(t@),
            None => !is_redir_op(t@),
        },
{
    proof {
        lemma_op_tokens_distinct();
    }
    if str_is(t, ">") || str_is(t, "1>") {
        Some((RedirectionTarget::Stdout, RedirectionMode::Overwrite))
    } else if str_is(t, ">>") || str_is(t, "1>>") {
        Some((RedirectionTarget::Stdout, RedirectionMode::Append))
    } else if str_is(t, "2>") {
        Some((RedirectionTarget::Stderr, RedirectionMode::Overwrite))
    } else if str_is(t, "2>>") {
        Some((RedirectionTarget::Stderr, RedirectionMode::Append))
    } else {
        None
    }
}

/// What a successful extraction promises of its pieces.
pub open spec fn extraction_matches(
    toks: Seq<Seq<char>>,
    clean: Seq<Seq<char>>,
    so: Option<RedirectionV>,
    se: Option<RedirectionV>,
) -> bool {
    match extract_from(toks) {
        Some(ev) => clean == ev.clean && so == ev.stdout_redir && se == ev.stderr_redir,
        None => false,
    }
}

/// Scan the tokens for redirection operators, removing each operator and its
/// filename and recording the last redirection named for each stream.
pub fn extract_core(tokens: &Vec<String>) -> (r: Result<
    (Vec<String>, Option<Redirection>, Option<Redirection>),
    CommandError,
>)
    ensures
        match r {
            Ok(p) => extraction_matches(
                tokens.deep_view(),
                p.0.deep_view(),
                p.1.deep_view(),
                p.2.deep_view(),
            ),
            Err(e) => extract_from(tokens.deep_view()) is None && e@
                == CommandErrorV::InvalidArguments("Missing file for redirection"@),
        },
{
    let ghost full = tokens.deep_view();
    let n = tokens.len();
    let mut clean: Vec<String> = Vec::new();
    let mut so: Option<Redirection> = None;
    let mut se: Option<Redirection> = None;
    let mut i: usize = 0;
    proof {
        assert(full.skip(0) =~= full);
        assert(clean.deep_view() =~= Seq::<Seq<char>>::empty());
    }
    while i < n
        invariant
            0 <= i <= n,
            n == tokens@.len(),
            full == tokens.deep_view(),
            extract_from(full) == (match extract_from(full.skip(i as int)) {
                Some(rest) => Some(
                    ExtractionV {
                        clean: clean.deep_view() + rest.clean,
                        stdout_redir: if rest.stdout_redir is Some {
                            rest.stdout_redir
                        } else {
                            so.deep_view()
                        },
                        stderr_redir: if rest.stderr_redir is Some {
                            rest.stderr_redir
                        } else {
                            se.deep_view()
                        },
                    },
                ),
                None => None,
            }),
        decreases n - i,
    {
        proof {
            assert(full.skip(i as int)[0] == full[i as int]);
            assert(full[i as int] == tokens@[i as int]@);
        }
        match classify_op(&tokens[i]) {
            Some(tm) => {
                if i + 1 >= n {
                    proof {
                        assert(full.skip(i as int).len() == 1);
                    }
                    return Err(
                        CommandError::InvalidArguments("Missing file for redirection".to_owned()),
                    );
                }
                let file = tokens[i + 1].clone();
                let redir = Redirection { target: tm.0, file, mode: tm.1 };
                proof {
                    assert(full.skip(i as int)[1] == full[i as int + 1]);
                    assert(full.skip(i as int).skip(2) =~= full.skip(i as int + 2));
                }
                if matches!(tm.0, RedirectionTarget::Stdout) {
                    so = Some(redir);
                } else {
                    se = Some(redir);
                }
                i = i + 2;
            },
            None => {
                let ghost old_clean = clean.deep_view();
                clean.push(tokens[i].clone());
                proof {
                    assert(clean.deep_view() =~= old_clean.push(full[i as int]));
                    assert(full.skip(i as int).skip(1) =~= full.skip(i as int + 1));
                    assert forall|c: Seq<Seq<char>>|
                        old_clean + (seq![full[i as int]] + c) =~= old_clean.push(
                            full[i as int],
                        ) + c by {};
                }
                i = i + 1;
            },
        }
    }
    proof {
        assert(full.skip(n as int) =~= Seq::<Seq<char>>::empty());
        if extract_from(full) is Some {
            assert(clean.deep_view() + Seq::<Seq<char>>::empty() =~= clean.deep_view());
        }
    }
    Ok((clean, so, se))
}

/// The invariant of a command's redirection set: zero, one or two entries,
/// with at most one per stream; when both streams are redirected the Stdout
/// entry comes first, so that it is materialized first.
pub open spec fn wf_redirections(rs: Seq<RedirectionV>) -> bool {
    if rs.len() <= 1 {
        true
    } else if rs.len() == 2 {
        rs[0].target == RedirectionTarget::Stdout && rs[1].target == RedirectionTarget::Stderr
    } else {
        false
    }
}

/// Extraction records each redirection under the stream its operator names.
pub proof fn lemma_extract_targets(toks: Seq<Seq<char>>)
    ensures
        extract_from(toks) matches Some(ev) ==> {
            &&& (ev.stdout_redir matches Some(r) ==> r.target == RedirectionTarget::Stdout)
            &&& (ev.stderr_redir matches Some(r) ==> r.target == RedirectionTarget::Stderr)
        },
    decreases toks.len(),
{
    if toks.len() == 0 {
    } else if is_redir_op(toks[0]) {
        if toks.len() > 1 {
            lemma_extract_targets(toks.skip(2));
        }
    } else {
        lemma_extract_targets(toks.skip(1));
    }
}

/// An extraction outcome always yields a well-formed redirection set.
pub proof fn lemma_extract_redirs_wf(toks: Seq<Seq<char>>)
    ensures
        extract_from(toks) matches Some(ev) ==> wf_redirections(
            redirs_seq(ev.stdout_redir, ev.stderr_redir),
        ),
{
    lemma_extract_targets(toks);
}

/// Tokens free of redirection operators pass through extraction unchanged.
pub proof fn lemma_extract_op_free(c: Seq<Seq<char>>)
    requires
        forall|i: int| 0 <= i < c.len() ==> !is_redir_op(#[trigger] c[i]),
    ensures
        extract_from(c) == Some(
            ExtractionV { clean: c, stdout_redir: None, stderr_redir: None },
        ),
    decreases c.len(),
{
    if c.len() == 0 {
        assert(c =~= Seq::<Seq<char>>::empty());
    } else {
        lemma_extract_op_free(c.skip(1));
        assert(seq![c[0]] + c.skip(1) =~= c);
    }
}

/// A prefix free of redirection operators passes through extraction into the
/// clean tokens, and the rest of the stream decides the redirections.
pub proof fn lemma_extract_prefix_op_free(a: Seq<Seq<char>>, rest: Seq<Seq<char>>)
    requires
        forall|i: int| 0 <= i < a.len() ==> !is_redir_op(#[trigger] a[i]),
    ensures
        extract_from(a + rest) == (match extract_from(rest) {
            Some(ev) => Some(
                ExtractionV {
                    clean: a + ev.clean,
                    stdout_redir: ev.stdout_redir,
                    stderr_redir: ev.stderr_redir,
                },
            ),
            None => None,
        }),
    decreases a.len(),
{
    if a.len() == 0 {
        assert(a + rest =~= rest);
        if extract_from(rest) is Some {
            let ev = extract_from(rest).unwrap();
            assert(a + ev.clean =~= ev.clean);
        }
    } else {
        lemma_extract_prefix_op_free(a.drop_first(), rest);
        let t = a + rest;
        assert(t[0] == a[0]);
        assert(t.skip(1) =~= a.drop_first() + rest);
        if extract_from(rest) is Some {
            let ev = extract_from(rest).unwrap();
            assert(seq![a[0]] + (a.drop_first() + ev.clean) =~= a + ev.clean);
        }
    }
}

/// When a line holds two Stdout redirection pairs, only the later pair's
/// filename ends up in the extracted redirection set: the earlier pair is
/// parsed and removed, but superseded, so its file is never the one a
/// command opens. Both operator/filename pairs leave the clean tokens.
pub proof fn lemma_stdout_last_wins(
    a: Seq<Seq<char>>,
    op1: Seq<char>,
    f1: Seq<char>,
    b: Seq<Seq<char>>,
    op2: Seq<char>,
    f2: Seq<char>,
    c: Seq<Seq<char>>,
)
    requires
        is_stdout_op(op1),
        is_stdout_op(op2),
        !is_redir_op(f1),
        !is_redir_op(f2),
        forall|i: int| 0 <= i < a.len() ==> !is_redir_op(#[trigger] a[i]),
        forall|i: int| 0 <= i < b.len() ==> !is_redir_op(#[trigger] b[i]),
        forall|i: int| 0 <= i < c.len() ==> !is_redir_op(#[trigger] c[i]),
    ensures
        extract_from(a + seq![op1, f1] + b + seq![op2, f2] + c) == Some(
            ExtractionV {
                clean: a + b + c,
                stdout_redir: Some(
                    RedirectionV {
                        target: RedirectionTarget::Stdout,
                        file: f2,
                        mode: op_mode(op2),
                    },
                ),
                stderr_redir: None,
            },
        ),
{
    lemma_op_tokens_distinct();
    lemma_extract_op_free(c);
    let r2 = RedirectionV { target: RedirectionTarget::Stdout, file: f2, mode: op_mode(op2) };
    let t2 = seq![op2, f2] + c;
    assert(t2[0] == op2 && t2[1] == f2);
    assert(t2.skip(2) =~= c);
    assert(op_target(op2) == RedirectionTarget::Stdout);
    assert(extract_from(t2) == Some(
        ExtractionV { clean: c, stdout_redir: Some(r2), stderr_redir: None },
    ));
    lemma_extract_prefix_op_free(b, t2);
    assert(extract_from(b + t2) == Some(
        ExtractionV { clean: b + c, stdout_redir: Some(r2), stderr_redir: None },
    ));
    let t1 = seq![op1, f1] + (b + t2);
    assert(t1[0] == op1 && t1[1] == f1);
    assert(t1.skip(2) =~= b + t2);
    assert(op_target(op1) == RedirectionTarget::Stdout);
    assert(extract_from(t1) == Some(
        ExtractionV { clean: b + c, stdout_redir: Some(r2), stderr_redir: None },
    ));
    lemma_extract_prefix_op_free(a, t1);
    assert(a + t1 =~= a + seq![op1, f1] + b + seq![op2, f2] + c);
    assert(a + (b + c) =~= a + b + c);
}

/// The first redirection in the sequence that affects the given stream.
pub open spec fn first_redir(rs: Seq<RedirectionV>, target: RedirectionTarget) -> Option<
    RedirectionV,
>
    decreases rs.len(),
{
    if rs.len() == 0 {
        None
    } else if rs[0].target == target {
        Some(rs[0])
    } else {
        first_redir(rs.drop_first(), target)
    }
}

/// The redirection that applies to the given stream, if any: with at most
/// one entry per stream, the first match is the only one.
pub fn find_redirection<'a>(redirections: &'a Vec<Redirection>, target: RedirectionTarget) -> (r:
    Option<&'a Redirection>)
    ensures
        match r {
            Some(rd) => first_redir(redirections.deep_view(), target) == Some(rd@),
            None => first_redir(redirections.deep_view(), target) is None,
        },
{
    let ghost full = redirections.deep_view();
    let n = redirections.len();
    let mut i: usize = 0;
    proof {
        assert(full.skip(0) =~= full);
    }
    while i < n
        invariant
            0 <= i <= n,
            n == redirections@.len(),
            full == redirections.deep_view(),
            first_redir(full, target) == first_redir(full.skip(i as int), target),
        decreases n - i,
    {
        proof {
            assert(full.skip(i as int)[0] == full[i as int]);
            assert(full.skip(i as int).drop_first() =~= full.skip(i as int + 1));
        }
        if redirections[i].target == target {
            return Some(&redirections[i]);
        }
        i = i + 1;
    }
    proof {
        assert(full.skip(n as int) =~= Seq::<RedirectionV>::empty());
    }
    None
}

/// The redirections of a command as an ordered sequence: the Stdout entry, if
/// any, comes before the Stderr entry, if any.
pub open spec fn redirs_seq(so: Option<RedirectionV>, se: Option<RedirectionV>) -> Seq<
    RedirectionV,
> {
    (match so {
        Some(r) => seq![r],
        None => Seq::<RedirectionV>::empty(),
    }) + (match se {
        Some(r) => seq![r],
        None => Seq::<RedirectionV>::empty(),
    })
}

/// Extract redirections from a token stream: the clean tokens in their
/// original order, and at most one redirection per stream, Stdout first.
pub fn extract_redirections(tokens: &Vec<String>) -> (r: Result<
    (Vec<String>, Vec<Redirection>),
    CommandError,
>)
    ensures
        match r {
            Ok(p) => match extract_from(tokens.deep_view()) {
                Some(ev) => p.0.deep_view() == ev.clean && p.1.deep_view() == redirs_seq(
                    ev.stdout_redir,
                    ev.stderr_redir,
                ),
                None => false,
            },
            Err(e) => extract_from(tokens.deep_view()) is None && e@
                == CommandErrorV::InvalidArguments("Missing file for redirection"@),
        },
{
    let (clean, so, se) = extract_core(tokens)?;
    let ghost sov = so.deep_view();
    let ghost sev = se.deep_view();
    let mut redirs: Vec<Redirection> = Vec::new();
    if let Some(r) = so {
        redirs.push(r);
    }
    if let Some(r) = se {
        redirs.push(r);
    }
    proof {
        assert(redirs.deep_view() =~= redirs_seq(sov, sev));
    }
    Ok((clean, redirs))
}

} // verus!
