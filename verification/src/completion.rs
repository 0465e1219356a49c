//! The pure logic behind command-name completion: prefix filtering, the
//! longest common prefix of the candidates, and the choice of what a single
//! keystroke completes to.

use vstd::prelude::*;
use crate::tokenize::chars_to_string;
use crate::tokenize::str_chars;

verus! {

/// Whether `p` is a prefix of `s`.
pub open spec fn is_prefix_of(p: Seq<char>, s: Seq<char>) -> bool {
    p.len() <= s.len() && s.subrange(0, p.len() as int) == p
}

/// The longest common prefix of two strings.
pub open spec fn common_prefix2(a: Seq<char>, b: Seq<char>) -> Seq<char>
    decreases a.len(),
{
    if a.len() == 0 || b.len() == 0 {
        Seq::empty()
    } else if a[0] == b[0] {
        seq![a[0]] + common_prefix2(a.drop_first(), b.drop_first())
    } else {
        Seq::empty()
    }
}

/// The longest common prefix of all the strings: the whole single string
/// when there is one, the empty string when there are none.
pub open spec fn common_prefix_all(ss: Seq<Seq<char>>) -> Seq<char>
    decreases ss.len(),
{
    if ss.len() == 0 {
        Seq::empty()
    } else if ss.len() == 1 {
        ss[0]
    } else {
        common_prefix2(ss[0], common_prefix_all(ss.drop_first()))
    }
}

/// The longest common prefix of two character vectors.
fn common2(a: &Vec<char>, b: &Vec<char>) -> (r: Vec<char>)
    ensures
        r@ == common_prefix2(a@, b@),
{
    let mut r: Vec<char> = Vec::new();
    let mut i: usize = 0;
    let limit: usize = if a.len() < b.len() {
        a.len()
    } else {
        b.len()
    };
    proof {
        assert(a@.skip(0) =~= a@);
        assert(b@.skip(0) =~= b@);
    }
    while i < limit && a[i] == b[i]
        invariant
            0 <= i <= limit,
            limit == if a@.len() < b@.len() {
                a@.len()
            } else {
                b@.len()
            },
            common_prefix2(a@, b@) == r@ + common_prefix2(a@.skip(i as int), b@.skip(i as int)),
        decreases limit - i,
    {
        proof {
            let sa = a@.skip(i as int);
            let sb = b@.skip(i as int);
            assert(sa[0] == a@[i as int] && sb[0] == b@[i as int]);
            assert(sa.drop_first() =~= a@.skip(i as int + 1));
            assert(sb.drop_first() =~= b@.skip(i as int + 1));
            assert(r@.push(a@[i as int]) + common_prefix2(
                a@.skip(i as int + 1),
                b@.skip(i as int + 1),
            ) =~= r@ + (seq![a@[i as int]] + common_prefix2(
                a@.skip(i as int + 1),
                b@.skip(i as int + 1),
            )));
        }
        r.push(a[i]);
        i = i + 1;
    }
    proof {
        assert(common_prefix2(a@.skip(i as int), b@.skip(i as int)) =~= Seq::<char>::empty());
        assert(r@ + Seq::<char>::empty() =~= r@);
    }
    r
}

/// The longest common prefix of all the candidate names.
pub fn longest_common_prefix(strings: &Vec<String>) -> (r: String)
    ensures
        r@ == common_prefix_all(strings.deep_view()),
{
    let ghost ss = strings.deep_view();
    let n = strings.len();
    if n == 0 {
        let r = String::new();
        return r;
    }
    let mut acc = str_chars(strings[n - 1].as_str());
    proof {
        assert(ss.skip(n - 1).len() == 1);
        assert(ss.skip(n - 1)[0] == ss[n - 1]);
    }
    let mut k: usize = n - 1;
    while k > 0
        invariant
            0 <= k <= n - 1,
            n == strings@.len(),
            ss == strings.deep_view(),
            acc@ == common_prefix_all(ss.skip(k as int)),
        decreases k,
    {
        k = k - 1;
        let cs = str_chars(strings[k].as_str());
        proof {
            let t = ss.skip(k as int);
            assert(t.len() >= 2);
            assert(t[0] == ss[k as int]);
            assert(t.drop_first() =~= ss.skip(k as int + 1));
        }
        acc = common2(&cs, &acc);
    }
    proof {
        assert(ss.skip(0) =~= ss);
    }
    chars_to_string(&acc)
}

/// The names that start with the given word, in their original order.
pub open spec fn matches_of(names: Seq<Seq<char>>, word: Seq<char>) -> Seq<Seq<char>>
    decreases names.len(),
{
    if names.len() == 0 {
        Seq::empty()
    } else {
        matches_of(names.drop_last(), word) + (if is_prefix_of(word, names.last()) {
            seq![names.last()]
        } else {
            Seq::empty()
        })
    }
}

/// Whether the name starts with the given word.
fn starts_with_chars(s: &String, w: &Vec<char>) -> (r: bool)
    ensures
        r == is_prefix_of(w@, s@),
{
    let cs = str_chars(s.as_str());
    if w.len() > cs.len() {
        return false;
    }
    let mut i: usize = 0;
    while i < w.len()
        invariant
            0 <= i <= w@.len() <= cs@.len(),
            cs@ == s@,
            forall|j: int| 0 <= j < i ==> s@[j] == w@[j],
        decreases w@.len() - i,
    {
        if cs[i] != w[i] {
            proof {
                assert(s@.subrange(0, w@.len() as int)[i as int] != w@[i as int]);
            }
            return false;
        }
        i = i + 1;
    }
    proof {
        assert(s@.subrange(0, w@.len() as int) =~= w@);
    }
    true
}

/// The candidate names that start with the given word.
pub fn filter_prefix(word: &str, names: &Vec<String>) -> (r: Vec<String>)
    ensures
        r.deep_view() == matches_of(names.deep_view(), word@),
{
    let w = str_chars(word);
    let mut out: Vec<String> = Vec::new();
    let mut i: usize = 0;
    proof {
        assert(out.deep_view() =~= matches_of(names.deep_view().take(0), word@));
    }
    while i < names.len()
        invariant
            0 <= i <= names@.len(),
            w@ == word@,
            out.deep_view() == matches_of(names.deep_view().take(i as int), word@),
        decreases names@.len() - i,
    {
        let ghost dv = names.deep_view();
        proof {
            assert(dv.take(i as int + 1).drop_last() =~= dv.take(i as int));
            assert(dv.take(i as int + 1).last() == dv[i as int]);
            assert(dv[i as int] == names@[i as int]@);
        }
        if starts_with_chars(&names[i], &w) {
            let ghost old_out = out.deep_view();
            out.push(names[i].clone());
            proof {
                assert(out.deep_view() =~= old_out.push(dv[i as int]));
                assert(old_out.push(dv[i as int]) =~= old_out + seq![dv[i as int]]);
            }
        } else {
            proof {
                assert(out.deep_view() + Seq::<Seq<char>>::empty() =~= out.deep_view());
            }
        }
        i = i + 1;
    }
    proof {
        assert(names.deep_view().take(names@.len() as int) =~= names.deep_view());
    }
    out
}

/// What one completion keystroke offers for the matching names: nothing when
/// nothing matches; the single match, closed with a space, when exactly one
/// does; otherwise the common prefix of the matches when it extends the word,
/// or else the matches themselves.
pub open spec fn completion_choice_spec(word: Seq<char>, ms: Seq<Seq<char>>) -> Seq<Seq<char>> {
    if ms.len() == 0 {
        Seq::empty()
    } else if ms.len() == 1 {
        seq![ms[0] + seq![' ']]
    } else {
        let p = common_prefix_all(ms);
        if p.len() > 0 && p.len() > word.len() {
            seq![p]
        } else {
            ms
        }
    }
}

/// Choose what the completion key offers for the given word and matches.
pub fn completion_choice(word: &str, matches: &Vec<String>) -> (r: Vec<String>)
    ensures
        r.deep_view() == completion_choice_spec(word@, matches.deep_view()),
{
    let ghost ms = matches.deep_view();
    if matches.len() == 0 {
        let r: Vec<String> = Vec::new();
        proof {
            assert(r.deep_view() =~= Seq::<Seq<char>>::empty());
        }
        r
    } else if matches.len() == 1 {
        let mut cs = str_chars(matches[0].as_str());
        cs.push(' ');
        let mut r: Vec<String> = Vec::new();
        r.push(chars_to_string(&cs));
        proof {
            assert(r.deep_view() =~~= seq![ms[0] + seq![' ']]);
        }
        r
    } else {
        let p = longest_common_prefix(matches);
        let pcs = str_chars(p.as_str());
        let wcs = str_chars(word);
        if pcs.len() > 0 && pcs.len() > wcs.len() {
            let mut r: Vec<String> = Vec::new();
            r.push(p);
            proof {
                assert(r.deep_view() =~= seq![common_prefix_all(ms)]);
            }
            r
        } else {
            let mut r: Vec<String> = Vec::new();
            let mut i: usize = 0;
            proof {
                assert(r.deep_view() =~= ms.take(0));
            }
            while i < matches.len()
                invariant
                    0 <= i <= matches@.len(),
                    ms == matches.deep_view(),
                    r.deep_view() == ms.take(i as int),
                decreases matches@.len() - i,
            {
                let ghost old_r = r.deep_view();
                r.push(matches[i].clone());
                proof {
                    assert(r.deep_view() =~= old_r.push(ms[i as int]));
                    assert(old_r.push(ms[i as int]) =~= ms.take(i as int + 1));
                }
                i = i + 1;
            }
            proof {
                assert(ms.take(matches@.len() as int) =~= ms);
            }
            r
        }
    }
}

} // verus!
