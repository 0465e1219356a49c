//! Parsing a signed decimal integer, as the `exit` builtin's argument
//! grammar demands: an optional sign, then digits only, and a value that
//! fits in an `i32`.

use vstd::prelude::*;

verus! {

/// Whether `c` is a decimal digit.
pub open spec fn is_digit_char(c: char) -> bool {
    ('0' as u32) <= (c as u32) && (c as u32) <= ('9' as u32)
}

/// The numeric value of a digit character.
pub open spec fn digit_val(c: char) -> int {
    c as u32 - '0' as u32
}

/// Whether every character of `s` is a decimal digit.
pub open spec fn all_digits(s: Seq<char>) -> bool {
    forall|i: int| 0 <= i < s.len() ==> is_digit_char(s[i])
}

/// The value of a digit string read in base ten.
pub open spec fn digits_val(s: Seq<char>) -> int
    decreases s.len(),
{
    if s.len() == 0 {
        0
    } else {
        10 * digits_val(s.drop_last()) + digit_val(s.last())
    }
}

/// The value denoted by a decimal integer literal: an optional `+` or `-`
/// sign followed by one or more digits, and nothing else.
pub open spec fn int_literal_value(s: Seq<char>) -> Option<int> {
    if s.len() > 0 && (s[0] == '+' || s[0] == '-') {
        let ds = s.drop_first();
        if ds.len() > 0 && all_digits(ds) {
            if s[0] == '-' {
                Some(-digits_val(ds))
            } else {
                Some(digits_val(ds))
            }
        } else {
            None
        }
    } else if s.len() > 0 && all_digits(s) {
        Some(digits_val(s))
    } else {
        None
    }
}

/// The value of `s` as an `i32`: the literal's value when it exists and is
/// in range, nothing otherwise.
pub open spec fn parse_i32_spec(s: Seq<char>) -> Option<int> {
    match int_literal_value(s) {
        Some(v) => if -0x8000_0000 <= v && v <= 0x7fff_ffff {
            Some(v)
        } else {
            None
        },
        None => None,
    }
}

/// A digit string's value is never negative.
proof fn lemma_digits_val_nonneg(s: Seq<char>)
    requires
        all_digits(s),
    ensures
        digits_val(s) >= 0,
    decreases s.len(),
{
    if s.len() > 0 {
        assert(all_digits(s.drop_last())) by {
            assert(forall|i: int|
                0 <= i < s.len() - 1 ==> s.drop_last()[i] == s[i] && is_digit_char(s[i]));
        }
        lemma_digits_val_nonneg(s.drop_last());
    }
}

/// Reading more digits never shrinks the value.
proof fn lemma_digits_val_prefix(s: Seq<char>, k: int)
    requires
        all_digits(s),
        0 <= k <= s.len(),
    ensures
        digits_val(s) >= digits_val(s.subrange(0, k)),
    decreases s.len() - k,
{
    if k == s.len() {
        assert(s.subrange(0, k) =~= s);
    } else {
        lemma_digits_val_prefix(s, k + 1);
        let t = s.subrange(0, k + 1);
        assert(all_digits(t)) by {
            assert(forall|i: int| 0 <= i < t.len() ==> t[i] == s[i] && is_digit_char(s[i]));
        }
        assert(t.drop_last() =~= s.subrange(0, k));
        lemma_digits_val_nonneg(t.drop_last());
        assert(digits_val(t) == 10 * digits_val(s.subrange(0, k)) + digit_val(s[k]));
        assert(digit_val(s[k]) >= 0);
    }
}

/// Parse a decimal `i32`: an optional sign, then one or more digits; fails
/// on any other shape and on a value outside the `i32` range.
pub fn parse_i32(cs: &Vec<char>) -> (r: Option<i32>)
    ensures
        match r {
            Some(v) => parse_i32_spec(cs@) == Some(v as int),
            None => parse_i32_spec(cs@) is None,
        },
{
    let n = cs.len();
    if n == 0 {
        return None;
    }
    let c0 = cs[0];
    let negative = c0 == '-';
    let start: usize = if c0 == '-' || c0 == '+' {
        1
    } else {
        0
    };
    if start >= n {
        return None;
    }
    let ghost ds = if start == 1 {
        cs@.drop_first()
    } else {
        cs@
    };
    proof {
        if start == 1 {
            assert(ds =~= cs@.subrange(1, n as int));
        } else {
            assert(ds =~= cs@.subrange(0, n as int));
        }
    }
    let mut acc: u64 = 0;
    let mut i: usize = start;
    while i < n
        invariant
            start <= i <= n,
            n == cs@.len(),
            start == 0 || start == 1,
            start == 1 ==> ds =~= cs@.subrange(1, n as int),
            start == 0 ==> ds == cs@,
            start == 1 <==> (cs@[0] == '+' || cs@[0] == '-'),
            negative == (cs@[0] == '-'),
            n > start,
            ds.len() == n - start,
            acc == digits_val(ds.subrange(0, i - start)),
            0 <= acc <= 0x8000_0000,
            all_digits(ds.subrange(0, i - start)),
        decreases n - i,
    {
        let c = cs[i];
        let cu = c as u32;
        if cu < '0' as u32 || cu > '9' as u32 {
            proof {
                assert(ds[i - start] == cs@[i as int]);
                assert(!is_digit_char(ds[i - start]));
                assert(!all_digits(ds));
            }
            return None;
        }
        let d: u64 = (cu - '0' as u32) as u64;
        let ghost prev = ds.subrange(0, i - start);
        let next_acc: u64 = 10 * acc + d;
        proof {
            let cur = ds.subrange(0, i + 1 - start);
            assert(cur.drop_last() =~= prev);
            assert(cur.last() == ds[i - start] == cs@[i as int]);
            assert(digits_val(cur) == 10 * digits_val(prev) + digit_val(cs@[i as int]));
            assert(all_digits(cur)) by {
                assert(forall|j: int|
                    0 <= j < cur.len() ==> cur[j] == prev.push(ds[i - start])[j]);
            }
        }
        if next_acc > 0x8000_0000 {
            proof {
                let cur = ds.subrange(0, i + 1 - start);
                assert(digits_val(cur) > 0x8000_0000);
                if all_digits(ds) {
                    lemma_digits_val_prefix(ds, i + 1 - start);
                    assert(digits_val(ds) > 0x8000_0000);
                }
            }
            return None;
        }
        acc = next_acc;
        i = i + 1;
    }
    proof {
        assert(ds.subrange(0, n - start) =~= ds);
        assert(acc == digits_val(ds));
        assert(all_digits(ds));
        if start == 1 {
            assert(cs@[0] == '+' || cs@[0] == '-');
            assert(ds.len() > 0);
        }
        assert(int_literal_value(cs@) == Some(if negative { -digits_val(ds) } else { digits_val(ds) }));
    }
    if negative {
        if acc == 0x8000_0000 {
            Some(i32::MIN)
        } else {
            Some(-(acc as i32))
        }
    } else {
        if acc > 0x7fff_ffff {
            return None;
        }
        Some(acc as i32)
    }
}

} // verus!
