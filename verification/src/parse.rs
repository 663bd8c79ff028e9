//! Verified parsing of decimal coordinate strings into `u64`.
//!
//! A coordinate string is an optional leading `+` followed by one or more
//! decimal digits; its value must fit in 64 unsigned bits. `parse_u64`
//! accepts exactly those strings and returns exactly the denoted value.

use vstd::prelude::*;

verus! {

/// Decimal digit test for a single character.
pub open spec fn is_dec_digit(c: char) -> bool {
    48 <= c as u32 && c as u32 <= 57
}

/// All characters of the sequence are decimal digits.
pub open spec fn all_dec_digits(s: Seq<char>) -> bool {
    forall|i: int| 0 <= i < s.len() ==> is_dec_digit(#[trigger] s[i])
}

/// The digit part of a coordinate string: everything after an optional
/// leading `+` sign.
pub open spec fn digits_of(s: Seq<char>) -> Seq<char> {
    if s.len() > 0 && s[0] == '+' {
        s.drop_first()
    } else {
        s
    }
}

/// The number a digit sequence denotes, most significant digit first.
pub open spec fn dec_nat(s: Seq<char>) -> nat
    recommends
        all_dec_digits(s),
    decreases s.len(),
{
    if s.len() == 0 {
        0
    } else {
        (dec_nat(s.drop_last()) * 10 + (s.last() as u32 - 48)) as nat
    }
}

/// The strings `parse_u64` accepts: an optional `+`, at least one digit,
/// nothing but digits, and a value that fits in a `u64`.
pub open spec fn is_u64_string(s: Seq<char>) -> bool {
    &&& digits_of(s).len() >= 1
    &&& all_dec_digits(digits_of(s))
    &&& dec_nat(digits_of(s)) <= u64::MAX
}

/// A digit sequence's value never shrinks when more digits follow: every
/// prefix denotes at most the whole.
pub proof fn lemma_dec_nat_prefix(s: Seq<char>, k: int)
    requires
        0 <= k <= s.len(),
        all_dec_digits(s),
    ensures
        dec_nat(s.take(k)) <= dec_nat(s),
    decreases s.len() - k,
{
    if k == s.len() {
        assert(s.take(k) =~= s);
    } else {
        lemma_dec_nat_prefix(s, k + 1);
        assert(s.take(k + 1).drop_last() =~= s.take(k));
        assert(s.take(k + 1).last() == s[k]);
        assert(dec_nat(s.take(k + 1)) == (dec_nat(s.take(k)) * 10 + (s[k] as u32 - 48)) as nat);
        assert(dec_nat(s.take(k)) * 10 >= dec_nat(s.take(k)) * 1);
    }
}

/// Parses a decimal coordinate string. Returns the denoted value exactly
/// when the string is an optional `+` followed by one or more digits whose
/// value fits in a `u64`; returns `None` on every other string.
pub fn parse_u64(s: &str) -> (r: Option<u64>)
    ensures
        match r {
            Some(v) => is_u64_string(s@) && v as nat == dec_nat(digits_of(s@)),
            None => !is_u64_string(s@),
        },
{
    let n = s.unicode_len();
    let mut i: usize = 0;
    if n > 0 && s.get_char(0) == '+' {
        i = 1;
    }
    let ghost start = i as int;
    let ghost ds = digits_of(s@);
    proof {
        assert(ds =~= s@.subrange(start, n as int));
    }
    if i == n {
        return None;
    }
    let mut acc: u64 = 0;
    while i < n
        invariant
            0 <= start <= i <= n,
            start < n,
            n == s@.len(),
            ds == s@.subrange(start, n as int),
            ds == digits_of(s@),
            all_dec_digits(s@.subrange(start, i as int)),
            acc as nat == dec_nat(s@.subrange(start, i as int)),
        decreases n - i,
    {
        let c = s.get_char(i);
        let cv = c as u32;
        if cv < 48 || cv > 57 {
            proof {
                let k = i - start;
                assert(s@.subrange(start, n as int)[k] == s@[i as int]);
                assert(!is_dec_digit(ds[k]));
            }
            return None;
        }
        let d: u32 = cv - 48;
        let wide: u128 = (acc as u128) * 10 + (d as u128);
        proof {
            let pre = s@.subrange(start, i as int);
            let ext = s@.subrange(start, i + 1);
            assert(ext.drop_last() =~= pre);
            assert(ext.last() == s@[i as int]);
            assert(dec_nat(ext) == (dec_nat(pre) * 10 + (s@[i as int] as u32 - 48)) as nat);
            assert(ext =~= ds.take(i + 1 - start));
        }
        if wide > u64::MAX as u128 {
            proof {
                if all_dec_digits(ds) {
                    lemma_dec_nat_prefix(ds, i + 1 - start);
                }
            }
            return None;
        }
        acc = wide as u64;
        i = i + 1;
    }
    proof {
        assert(s@.subrange(start, n as int) =~= ds);
    }
    Some(acc)
}

} // verus!
