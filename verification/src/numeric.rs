//! Decimal string inputs for wide integer fields: separator stripping and
//! a verified decimal parser.

use vstd::prelude::*;
use vstd::string::StrSliceExecFns;

use crate::error::EncodeError;

verus! {

/// The separator characters tolerated inside decimal string inputs.
pub open spec fn is_separator(c: char) -> bool {
    c == '_' || c == ','
}

/// `s` with every `_` and `,` removed, order kept.
pub open spec fn strip_separators(s: Seq<char>) -> Seq<char>
    decreases s.len(),
{
    if s.len() == 0 {
        Seq::empty()
    } else if is_separator(s.last()) {
        strip_separators(s.drop_last())
    } else {
        strip_separators(s.drop_last()).push(s.last())
    }
}

/// Is `c` a decimal digit?
pub open spec fn is_dec_digit(c: char) -> bool {
    '0' <= c && c <= '9'
}

pub open spec fn all_dec_digits(s: Seq<char>) -> bool {
    forall|i: int| 0 <= i < s.len() ==> is_dec_digit(s[i])
}

/// The number the decimal digit string `s` denotes (0 for the empty
/// string; meaningful only when `all_dec_digits(s)`).
pub open spec fn dec_value(s: Seq<char>) -> int
    decreases s.len(),
{
    if s.len() == 0 {
        0
    } else {
        dec_value(s.drop_last()) * 10 + (s.last() as int - 48)
    }
}

pub proof fn lemma_dec_value_nonneg(s: Seq<char>)
    requires
        all_dec_digits(s),
    ensures
        dec_value(s) >= 0,
    decreases s.len(),
{
    if s.len() > 0 {
        assert(all_dec_digits(s.drop_last()));
        lemma_dec_value_nonneg(s.drop_last());
    }
}

/// Appending further digits can only grow the denoted number.
pub proof fn lemma_dec_value_prefix(s: Seq<char>, i: int)
    requires
        all_dec_digits(s),
        0 <= i <= s.len(),
    ensures
        dec_value(s) >= dec_value(s.subrange(0, i)),
    decreases s.len() - i,
{
    if i < s.len() {
        lemma_dec_value_prefix(s, i + 1);
        let p = s.subrange(0, i + 1);
        assert(p.drop_last() =~= s.subrange(0, i));
        assert(all_dec_digits(s.subrange(0, i)));
        lemma_dec_value_nonneg(s.subrange(0, i));
        assert(dec_value(p) == dec_value(s.subrange(0, i)) * 10 + (p.last() as int - 48));
        assert(dec_value(p) >= dec_value(s.subrange(0, i)));
    } else {
        assert(s.subrange(0, i) =~= s);
    }
}

/// Collects the characters of `s` that are not separators.
pub fn strip_separator_chars(s: &str) -> (r: Vec<char>)
    ensures
        r@ == strip_separators(s@),
{
    let n = s.unicode_len();
    let mut r: Vec<char> = Vec::new();
    let mut i: usize = 0;
    while i < n
        invariant
            i <= n,
            n as nat == s@.len(),
            r@ == strip_separators(s@.subrange(0, i as int)),
        decreases n - i,
    {
        let c = s.get_char(i);
        if !(c == '_' || c == ',') {
            r.push(c);
        }
        proof {
            let pre = s@.subrange(0, i + 1);
            assert(pre.drop_last() =~= s@.subrange(0, i as int));
            assert(pre.last() == s@[i as int]);
        }
        i = i + 1;
    }
    proof {
        assert(s@.subrange(0, n as int) =~= s@);
    }
    r
}

/// Parses a bare decimal digit string. Fails with `NumericParse` when the
/// string is empty, holds a non-digit, or denotes a number above
/// `u128::MAX` — exactly then.
pub fn parse_decimal(digits: &Vec<char>) -> (r: Result<u128, EncodeError>)
    ensures
        match r {
            Ok(v) => digits@.len() > 0 && all_dec_digits(digits@) && v as int == dec_value(digits@),
            Err(e) => {
                &&& e == EncodeError::NumericParse
                &&& !(digits@.len() > 0 && all_dec_digits(digits@) && dec_value(digits@) <= u128::MAX)
            },
        },
{
    if digits.len() == 0 {
        return Err(EncodeError::NumericParse);
    }
    let mut acc: u128 = 0;
    let mut i: usize = 0;
    while i < digits.len()
        invariant
            digits@.len() > 0,
            i <= digits@.len(),
            all_dec_digits(digits@.subrange(0, i as int)),
            acc as int == dec_value(digits@.subrange(0, i as int)),
        decreases digits@.len() - i,
    {
        let c = digits[i];
        if c < '0' || c > '9' {
            assert(!is_dec_digit(digits@[i as int]));
            return Err(EncodeError::NumericParse);
        }
        let d = (c as u32 - 48) as u128;
        proof {
            let pre = digits@.subrange(0, i + 1);
            assert(pre.drop_last() =~= digits@.subrange(0, i as int));
            assert(pre.last() == digits@[i as int]);
            assert(is_dec_digit(c));
            assert forall|j: int| 0 <= j < pre.len() implies is_dec_digit(pre[j]) by {
                if j < i as int {
                    assert(pre[j] == digits@.subrange(0, i as int)[j]);
                } else {
                    assert(pre[j] == digits@[i as int]);
                }
            }
            assert(dec_value(pre) == dec_value(pre.drop_last()) * 10 + (pre.last() as int - 48));
            assert(pre.last() as int - 48 == d as int);
        }
        if acc > (u128::MAX - d) / 10 {
            proof {
                let pre = digits@.subrange(0, i + 1);
                assert(dec_value(pre) == acc * 10 + d);
                assert(acc * 10 + d > u128::MAX) by (nonlinear_arith)
                    requires
                        acc > (u128::MAX - d) / 10,
                        d <= 9,
                ;
                if all_dec_digits(digits@) {
                    lemma_dec_value_prefix(digits@, i + 1);
                }
            }
            return Err(EncodeError::NumericParse);
        }
        assert(acc * 10 + d <= u128::MAX) by (nonlinear_arith)
            requires
                acc <= (u128::MAX - d) / 10,
                d <= 9,
        ;
        acc = acc * 10 + d;
        i = i + 1;
    }
    proof {
        assert(digits@.subrange(0, digits@.len() as int) =~= digits@);
    }
    Ok(acc)
}

} // verus!
