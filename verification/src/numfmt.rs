//! Decimal text of unsigned integers: printing as `Display` does and parsing
//! as `u64::from_str` does.
use crate::text::chars_of;
use vstd::prelude::*;

verus! {

/// The decimal digit character of `d < 10`.
pub open spec fn digit_char(d: int) -> char {
    if d == 0 {
        '0'
    } else if d == 1 {
        '1'
    } else if d == 2 {
        '2'
    } else if d == 3 {
        '3'
    } else if d == 4 {
        '4'
    } else if d == 5 {
        '5'
    } else if d == 6 {
        '6'
    } else if d == 7 {
        '7'
    } else if d == 8 {
        '8'
    } else {
        '9'
    }
}

/// The decimal text of `n`, without sign or leading zeros.
pub open spec fn decimal(n: nat) -> Seq<char>
    decreases n,
{
    if n < 10 {
        seq![digit_char(n as int)]
    } else {
        decimal(n / 10).push(digit_char((n % 10) as int))
    }
}

/// `c` is an ASCII digit.
pub open spec fn is_digit(c: char) -> bool {
    '0' <= c && c <= '9'
}

/// The value of an ASCII digit.
pub open spec fn digit_value(c: char) -> int {
    (c as int) - ('0' as int)
}

/// The value of a run of digits.
pub open spec fn digits_value(s: Seq<char>) -> int
    decreases s.len(),
{
    if s.len() == 0 {
        0
    } else {
        digits_value(s.drop_last()) * 10 + digit_value(s.last())
    }
}

/// Every character is a digit.
pub open spec fn all_digits(s: Seq<char>) -> bool {
    forall|i: int| 0 <= i < s.len() ==> is_digit(#[trigger] s[i])
}

/// `u64::from_str`: an optional `+`, then at least one digit and nothing
/// else, of a value that fits.
pub open spec fn spec_parse_u64(s: Seq<char>) -> Option<u64> {
    let t = if s.len() > 1 && s[0] == '+' {
        s.drop_first()
    } else {
        s
    };
    if t.len() > 0 && all_digits(t) && digits_value(t) <= u64::MAX {
        Some(digits_value(t) as u64)
    } else {
        None
    }
}

/// The digit character of `d`.
fn digit_char_exec(d: u64) -> (c: char)
    requires
        d < 10,
    ensures
        c == digit_char(d as int),
{
    if d == 0 {
        '0'
    } else if d == 1 {
        '1'
    } else if d == 2 {
        '2'
    } else if d == 3 {
        '3'
    } else if d == 4 {
        '4'
    } else if d == 5 {
        '5'
    } else if d == 6 {
        '6'
    } else if d == 7 {
        '7'
    } else if d == 8 {
        '8'
    } else {
        '9'
    }
}

/// Appends the decimal text of `n`.
pub fn push_decimal(out: &mut Vec<char>, n: u64)
    ensures
        final(out)@ == old(out)@ + decimal(n as nat),
    decreases n,
{
    if n >= 10 {
        push_decimal(out, n / 10);
    }
    let c = digit_char_exec(n % 10);
    out.push(c);
    proof {
        if n >= 10 {
            assert(old(out)@ + decimal((n / 10) as nat) + seq![c] =~= old(out)@ + decimal(
                (n / 10) as nat,
            ).push(c));
        } else {
            assert(n % 10 == n);
        }
    }
}

/// Digit values are nonnegative and grow with more digits.
pub proof fn lemma_digits_value_prefix(s: Seq<char>, k: int)
    requires
        all_digits(s),
        0 <= k <= s.len(),
    ensures
        0 <= digits_value(s.take(k)) <= digits_value(s),
    decreases s.len(),
{
    if s.len() == 0 {
        assert(s.take(k) =~= s);
    } else if k == s.len() {
        assert(s.take(k) =~= s);
        lemma_digits_value_prefix(s.drop_last(), s.len() - 1);
        assert(s.drop_last().take(s.len() - 1) =~= s.drop_last());
    } else {
        lemma_digits_value_prefix(s.drop_last(), k);
        assert(s.drop_last().take(k) =~= s.take(k));
        lemma_digits_value_prefix(s.drop_last(), s.len() - 1);
        assert(s.drop_last().take(s.len() - 1) =~= s.drop_last());
        assert(is_digit(s[s.len() - 1]));
    }
}

/// The value of a run of digits, if it fits in a `u64`.
fn digits_to_u64(t: &Vec<char>, start: usize) -> (r: Option<u64>)
    requires
        start <= t.len(),
    ensures
        ({
            let u = t@.skip(start as int);
            match r {
                Some(v) => all_digits(u) && digits_value(u) == v,
                None => !(all_digits(u) && digits_value(u) <= u64::MAX),
            }
        }),
{
    let ghost u = t@.skip(start as int);
    let mut acc: u64 = 0;
    let mut i = start;
    assert(u.take(0) =~= Seq::<char>::empty());
    while i < t.len()
        invariant
            start <= i <= t.len(),
            u == t@.skip(start as int),
            all_digits(u.take(i - start)),
            acc == digits_value(u.take(i - start)),
        decreases t.len() - i,
    {
        let c = t[i];
        let ghost k = i - start;
        assert(u[k] == c);
        assert(u.take(k + 1).drop_last() =~= u.take(k));
        assert(u.take(k + 1).last() == c);
        if !('0' <= c && c <= '9') {
            assert(!all_digits(u)) by {
                assert(!is_digit(u[k]));
            }
            return None;
        }
        let d = ((c as u32) - ('0' as u32)) as u64;
        assert(d == digit_value(c));
        match acc.checked_mul(10) {
            Some(a10) => {
                match a10.checked_add(d) {
                    Some(next) => {
                        acc = next;
                    },
                    None => {
                        proof {
                            if all_digits(u) {
                                lemma_digits_value_prefix(u, k + 1);
                            }
                        }
                        return None;
                    },
                }
            },
            None => {
                proof {
                    if all_digits(u) {
                        lemma_digits_value_prefix(u, k + 1);
                        lemma_digits_value_prefix(u, k);
                        assert(digits_value(u.take(k + 1)) >= digits_value(u.take(k)) * 10)
                            by (nonlinear_arith)
                            requires
                                digits_value(u.take(k + 1)) == digits_value(u.take(k)) * 10
                                    + digit_value(c),
                                0 <= digit_value(c),
                        ;
                    }
                }
                return None;
            },
        }
        assert(all_digits(u.take(k + 1)));
        i = i + 1;
    }
    assert(u.take(t.len() - start) =~= u);
    Some(acc)
}

/// `u64::from_str`.
pub fn parse_u64(s: &str) -> (r: Option<u64>)
    ensures
        r == spec_parse_u64(s@),
{
    let t = chars_of(s);
    let start: usize = if t.len() > 1 && t[0] == '+' {
        1
    } else {
        0
    };
    let ghost u = t@.skip(start as int);
    proof {
        if start == 1 {
            assert(u =~= s@.drop_first());
        } else {
            assert(u =~= s@);
        }
    }
    if start == t.len() {
        return None;
    }
    digits_to_u64(&t, start)
}

} // verus!
