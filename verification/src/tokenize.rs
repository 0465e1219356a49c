//! Tokenization of a raw input line: splitting on runs of unquoted,
//! unescaped whitespace while honoring single quotes, double quotes, and
//! backslash escapes.

use vstd::prelude::*;

verus! {

broadcast use vstd::string::group_string_axioms;

/// The whitespace characters that trimming and token splitting recognize:
/// the ASCII whitespace set (space, tab, line feed, vertical tab, form feed,
/// carriage return). The rarer Unicode whitespace characters (no-break
/// space and the like) are not separators here.
pub open spec fn is_space_char(c: char) -> bool {
    c == ' ' || c == '\t' || c == '\n' || c == '\u{0b}' || c == '\u{0c}' || c == '\r'
}

fn is_space(c: char) -> (r: bool)
    ensures
        r == is_space_char(c),
{
    c == ' ' || c == '\t' || c == '\n' || c == '\u{0b}' || c == '\u{0c}' || c == '\r'
}

/// The characters of a string slice, in order.
pub fn str_chars(s: &str) -> (r: Vec<char>)
    ensures
        r@ == s@,
{
    let mut r: Vec<char> = Vec::new();
    for c in it: s.chars()
        invariant
            it.seq() == s@,
            r@ == it.seq().take(it.index() as int),
    {
        r.push(c);
    }
    assert(r@ =~= s@);
    r
}

/// Relies on `String: FromIterator<char>` (via `Iterator::collect`): the
/// collected string holds exactly the characters yielded by the iterator,
/// in order.
#[verifier::external_body]
pub fn chars_to_string(cs: &Vec<char>) -> (r: String)
    ensures
        r@ == cs@,
{
    cs.iter().collect()
}

/// Whether a string equals the given literal.
pub fn str_is(t: &String, lit: &str) -> (r: bool)
    ensures
        r == (t@ == lit@),
{
    let s: String = lit.to_owned();
    t.eq(&s)
}

/// The concatenation of two string slices.
pub fn concat_str(a: &str, b: &str) -> (r: String)
    ensures
        r@ == a@ + b@,
{
    let mut cs = str_chars(a);
    let mut tail = str_chars(b);
    cs.append(&mut tail);
    chars_to_string(&cs)
}

/// A string with its leading whitespace removed.
pub open spec fn trim_front_spec(s: Seq<char>) -> Seq<char>
    decreases s.len(),
{
    if s.len() > 0 && is_space_char(s[0]) {
        trim_front_spec(s.drop_first())
    } else {
        s
    }
}

/// A string with its trailing whitespace removed.
pub open spec fn trim_back_spec(s: Seq<char>) -> Seq<char>
    decreases s.len(),
{
    if s.len() > 0 && is_space_char(s.last()) {
        trim_back_spec(s.drop_last())
    } else {
        s
    }
}

/// A string with both leading and trailing whitespace removed.
pub open spec fn trim_spec(s: Seq<char>) -> Seq<char> {
    trim_back_spec(trim_front_spec(s))
}

/// The characters of `cs` with leading and trailing whitespace removed.
pub fn trim_chars(cs: &Vec<char>) -> (r: Vec<char>)
    ensures
        r@ == trim_spec(cs@),
{
    let mut lo: usize = 0;
    proof {
        assert(cs@.skip(0) =~= cs@);
    }
    while lo < cs.len() && is_space(cs[lo])
        invariant
            0 <= lo <= cs.len(),
            trim_front_spec(cs@) == trim_front_spec(cs@.skip(lo as int)),
        decreases cs.len() - lo,
    {
        proof {
            let s = cs@.skip(lo as int);
            assert(s.drop_first() =~= cs@.skip(lo as int + 1));
        }
        lo = lo + 1;
    }
    proof {
        assert(cs@.skip(lo as int) =~= cs@.subrange(lo as int, cs@.len() as int));
        assert(trim_front_spec(cs@) == cs@.skip(lo as int));
    }
    let mut hi: usize = cs.len();
    while hi > lo && is_space(cs[hi - 1])
        invariant
            lo <= hi <= cs.len(),
            trim_front_spec(cs@) == cs@.skip(lo as int),
            trim_back_spec(cs@.skip(lo as int)) == trim_back_spec(
                cs@.subrange(lo as int, hi as int),
            ),
        decreases hi,
    {
        proof {
            let u = cs@.subrange(lo as int, hi as int);
            assert(u.last() == cs@[hi - 1]);
            assert(u.drop_last() =~= cs@.subrange(lo as int, hi as int - 1));
        }
        hi = hi - 1;
    }
    proof {
        assert(trim_spec(cs@) == cs@.subrange(lo as int, hi as int));
    }
    let mut r: Vec<char> = Vec::new();
    let mut i: usize = lo;
    while i < hi
        invariant
            lo <= i <= hi <= cs.len(),
            r@ == cs@.subrange(lo as int, i as int),
        decreases hi - i,
    {
        r.push(cs[i]);
        proof {
            assert(r@ =~= cs@.subrange(lo as int, i as int + 1));
        }
        i = i + 1;
    }
    proof {
        assert(r@ == trim_spec(cs@));
    }
    r
}

/// A token sequence rejoined into one string with a single space between
/// consecutive tokens.
pub open spec fn join_spaces_spec(ts: Seq<Seq<char>>) -> Seq<char>
    decreases ts.len(),
{
    if ts.len() == 0 {
        Seq::empty()
    } else if ts.len() == 1 {
        ts[0]
    } else {
        join_spaces_spec(ts.drop_last()) + seq![' '] + ts.last()
    }
}

/// The quoting state of the tokenizer's scanner: outside any quotes, inside
/// single quotes, or inside double quotes.
#[derive(Clone, Copy, PartialEq, Eq, Structural, Debug)]
pub enum QuoteState {
    Unquoted,
    Single,
    Double,
}

/// The state reached when a single quote is scanned.
pub open spec fn toggle_single(st: QuoteState) -> QuoteState {
    match st {
        QuoteState::Unquoted => QuoteState::Single,
        QuoteState::Single => QuoteState::Unquoted,
        QuoteState::Double => QuoteState::Double,
    }
}

/// The state reached when a double quote is scanned.
pub open spec fn toggle_double(st: QuoteState) -> QuoteState {
    match st {
        QuoteState::Unquoted => QuoteState::Double,
        QuoteState::Double => QuoteState::Unquoted,
        QuoteState::Single => QuoteState::Single,
    }
}

/// The tokens produced from position `i` onward, given the current quoting
/// state `st` and the partially built token `cur`.
///
/// Scanning rules:
/// - A single quote outside double quotes toggles single-quoting; a double
///   quote outside single quotes toggles double-quoting; the quote characters
///   themselves are dropped.
/// - Inside single quotes every character, backslash included, is literal.
/// - Inside double quotes a backslash escapes only `"`, `\`, `$` and a
///   backquote; a backslash-newline pair is deleted entirely (line
///   continuation); before any other character the backslash stays literal.
/// - Outside quotes a backslash makes the following character literal; a
///   trailing backslash with nothing after it is kept literally.
/// - An unquoted whitespace character ends the current token, so a run of
///   whitespace is one separator; runs of separators never produce empty
///   tokens.
/// - An unterminated quote is treated as implicitly closed at end of input.
pub open spec fn tokens_from(s: Seq<char>, i: int, st: QuoteState, cur: Seq<char>) -> Seq<
    Seq<char>,
>
    decreases s.len() - i,
{
    if i < 0 || i >= s.len() {
        if cur.len() > 0 {
            seq![cur]
        } else {
            Seq::empty()
        }
    } else {
        let c = s[i];
        if c == '\'' && st != QuoteState::Double {
            tokens_from(s, i + 1, toggle_single(st), cur)
        } else if c == '"' && st != QuoteState::Single {
            tokens_from(s, i + 1, toggle_double(st), cur)
        } else if c == '\\' {
            if st == QuoteState::Single {
                tokens_from(s, i + 1, st, cur.push('\\'))
            } else if st == QuoteState::Double {
                if i + 1 < s.len() {
                    let n = s[i + 1];
                    if n == '"' || n == '\\' || n == '$' || n == '`' {
                        tokens_from(s, i + 2, st, cur.push(n))
                    } else if n == '\n' {
                        tokens_from(s, i + 2, st, cur)
                    } else {
                        tokens_from(s, i + 1, st, cur.push('\\'))
                    }
                } else {
                    tokens_from(s, i + 1, st, cur.push('\\'))
                }
            } else {
                if i + 1 < s.len() {
                    tokens_from(s, i + 2, st, cur.push(s[i + 1]))
                } else {
                    tokens_from(s, i + 1, st, cur.push('\\'))
                }
            }
        } else if is_space_char(c) && st == QuoteState::Unquoted {
            if cur.len() > 0 {
                seq![cur] + tokens_from(s, i + 1, st, Seq::empty())
            } else {
                tokens_from(s, i + 1, st, Seq::empty())
            }
        } else {
            tokens_from(s, i + 1, st, cur.push(c))
        }
    }
}

/// The tokens of a whole input line.
pub open spec fn tokens_of(s: Seq<char>) -> Seq<Seq<char>> {
    tokens_from(s, 0, QuoteState::Unquoted, Seq::empty())
}

/// Whether every token of the sequence has at least one character.
pub open spec fn all_nonempty(ts: Seq<Seq<char>>) -> bool {
    forall|k: int| 0 <= k < ts.len() ==> #[trigger] ts[k].len() > 0
}

proof fn lemma_tokens_from_nonempty(s: Seq<char>, i: int, st: QuoteState, cur: Seq<char>)
    ensures
        all_nonempty(tokens_from(s, i, st, cur)),
    decreases s.len() - i,
{
    if i < 0 || i >= s.len() {
    } else {
        let c = s[i];
        if is_space_char(c) && st == QuoteState::Unquoted && cur.len() > 0 {
            lemma_tokens_from_nonempty(s, i + 1, st, Seq::empty());
            let rest = tokens_from(s, i + 1, st, Seq::empty());
            assert forall|k: int|
                0 <= k < (seq![cur] + rest).len() implies #[trigger] (seq![cur]
                + rest)[k].len() > 0 by {
                if k > 0 {
                    assert((seq![cur] + rest)[k] == rest[k - 1]);
                }
            };
        }
        if c == '\'' && st != QuoteState::Double {
            lemma_tokens_from_nonempty(s, i + 1, toggle_single(st), cur);
        } else if c == '"' && st != QuoteState::Single {
            lemma_tokens_from_nonempty(s, i + 1, toggle_double(st), cur);
        } else if c == '\\' {
            if st == QuoteState::Single {
                lemma_tokens_from_nonempty(s, i + 1, st, cur.push('\\'));
            } else if st == QuoteState::Double {
                if i + 1 < s.len() {
                    let n = s[i + 1];
                    if n == '"' || n == '\\' || n == '$' || n == '`' {
                        lemma_tokens_from_nonempty(s, i + 2, st, cur.push(n));
                    } else if n == '\n' {
                        lemma_tokens_from_nonempty(s, i + 2, st, cur);
                    } else {
                        lemma_tokens_from_nonempty(s, i + 1, st, cur.push('\\'));
                    }
                } else {
                    lemma_tokens_from_nonempty(s, i + 1, st, cur.push('\\'));
                }
            } else {
                if i + 1 < s.len() {
                    lemma_tokens_from_nonempty(s, i + 2, st, cur.push(s[i + 1]));
                } else {
                    lemma_tokens_from_nonempty(s, i + 1, st, cur.push('\\'));
                }
            }
        } else if is_space_char(c) && st == QuoteState::Unquoted {
            lemma_tokens_from_nonempty(s, i + 1, st, Seq::empty());
        } else {
            lemma_tokens_from_nonempty(s, i + 1, st, cur.push(c));
        }
    }
}

/// Tokenization never produces a zero-length token: a partial token is only
/// emitted once it holds at least one character, so runs of separators
/// produce nothing.
pub proof fn lemma_tokens_nonempty(s: Seq<char>)
    ensures
        all_nonempty(tokens_of(s)),
{
    lemma_tokens_from_nonempty(s, 0, QuoteState::Unquoted, Seq::empty());
}

/// Split a raw input line into tokens, honoring quoting and escaping.
pub fn split_args(raw: &str) -> (r: Vec<String>)
    ensures
        r.deep_view() == tokens_of(raw@),
{
    let cs = str_chars(raw);
    let n = cs.len();
    let mut out: Vec<String> = Vec::new();
    let mut cur: Vec<char> = Vec::new();
    let mut st = QuoteState::Unquoted;
    let mut i: usize = 0;
    proof {
        assert(out.deep_view() =~= Seq::<Seq<char>>::empty());
    }
    while i < n
        invariant
            0 <= i <= n,
            n == cs@.len(),
            cs@ == raw@,
            tokens_of(raw@) == out.deep_view() + tokens_from(cs@, i as int, st, cur@),
        decreases n - i,
    {
        let c = cs[i];
        if c == '\'' && !matches!(st, QuoteState::Double) {
            st = match st {
                QuoteState::Unquoted => QuoteState::Single,
                QuoteState::Single => QuoteState::Unquoted,
                QuoteState::Double => QuoteState::Double,
            };
            i = i + 1;
        } else if c == '"' && !matches!(st, QuoteState::Single) {
            st = match st {
                QuoteState::Unquoted => QuoteState::Double,
                QuoteState::Double => QuoteState::Unquoted,
                QuoteState::Single => QuoteState::Single,
            };
            i = i + 1;
        } else if c == '\\' {
            match st {
                QuoteState::Single => {
                    cur.push('\\');
                    i = i + 1;
                },
                QuoteState::Double => {
                    if i + 1 < n {
                        let nx = cs[i + 1];
                        if nx == '"' || nx == '\\' || nx == '$' || nx == '`' {
                            cur.push(nx);
                            i = i + 2;
                        } else if nx == '\n' {
                            i = i + 2;
                        } else {
                            cur.push('\\');
                            i = i + 1;
                        }
                    } else {
                        cur.push('\\');
                        i = i + 1;
                    }
                },
                QuoteState::Unquoted => {
                    if i + 1 < n {
                        let nx = cs[i + 1];
                        cur.push(nx);
                        i = i + 2;
                    } else {
                        cur.push('\\');
                        i = i + 1;
                    }
                },
            }
        } else if is_space(c) && matches!(st, QuoteState::Unquoted) {
            if cur.len() > 0 {
                let tok = chars_to_string(&cur);
                let ghost old_out = out.deep_view();
                let ghost old_cur = cur@;
                out.push(tok);
                cur = Vec::new();
                proof {
                    assert(out.deep_view() =~= old_out.push(old_cur));
                    assert(old_out + (seq![old_cur] + tokens_from(
                        cs@,
                        i as int + 1,
                        st,
                        Seq::empty(),
                    )) =~= old_out.push(old_cur) + tokens_from(cs@, i as int + 1, st, Seq::empty()));
                }
            } else {
                proof {
                    assert(cur@ =~= Seq::<char>::empty());
                }
            }
            i = i + 1;
        } else {
            cur.push(c);
            i = i + 1;
        }
    }
    if cur.len() > 0 {
        let tok = chars_to_string(&cur);
        let ghost old_out = out.deep_view();
        let ghost old_cur = cur@;
        out.push(tok);
        proof {
            assert(out.deep_view() =~= old_out.push(old_cur));
            assert(old_out + seq![old_cur] =~= old_out.push(old_cur));
        }
    } else {
        proof {
            assert(out.deep_view() + Seq::<Seq<char>>::empty() =~= out.deep_view());
        }
    }
    out
}

/// Split a string into tokens and rejoin them with single spaces.
pub fn preprocess_args(args: &str) -> (r: String)
    ensures
        r@ == join_spaces_spec(tokens_of(args@)),
{
    let tokens = split_args(args);
    join_spaces(&tokens)
}

/// Rejoin tokens with single spaces between them.
pub fn join_spaces(ts: &Vec<String>) -> (r: String)
    ensures
        r@ == join_spaces_spec(ts.deep_view()),
{
    let mut cur: Vec<char> = Vec::new();
    let mut i: usize = 0;
    while i < ts.len()
        invariant
            0 <= i <= ts.len(),
            ts.deep_view().len() == ts@.len(),
            cur@ == join_spaces_spec(ts.deep_view().take(i as int)),
        decreases ts.len() - i,
    {
        if i > 0 {
            cur.push(' ');
        }
        let mut piece = str_chars(ts[i].as_str());
        cur.append(&mut piece);
        proof {
            let dv = ts.deep_view();
            assert(dv[i as int] == ts@[i as int]@);
            assert(dv.take(i as int + 1).drop_last() =~= dv.take(i as int));
            assert(dv.take(i as int + 1).last() == dv[i as int]);
            if i == 0 {
                assert(cur@ =~= join_spaces_spec(dv.take(1)));
            } else {
                assert(cur@ =~= join_spaces_spec(dv.take(i as int)) + seq![' '] + dv[i as int]);
            }
        }
        i = i + 1;
    }
    proof {
        assert(ts.deep_view().take(ts@.len() as int) =~= ts.deep_view());
    }
    chars_to_string(&cur)
}

} // verus!
