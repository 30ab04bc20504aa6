//! Unsigned decimal numbers written as text: an optional `+`, then digits.
use vstd::prelude::*;

verus! {

pub open spec fn is_digit(c: char) -> bool {
    '0' <= c <= '9'
}

/// The value of a run of decimal digits, most significant first.
pub open spec fn digits_value(s: Seq<char>) -> nat
    decreases s.len(),
{
    if s.len() == 0 {
        0
    } else {
        digits_value(s.drop_last()) * 10 + (s.last() as nat - '0' as nat) as nat
    }
}

/// The digits of `s`, without the one `+` that may lead them.
pub open spec fn digits_part(s: Seq<char>) -> Seq<char> {
    if s.len() > 0 && s[0] == '+' {
        s.drop_first()
    } else {
        s
    }
}

/// The number `s` writes, when it is one no larger than `limit`.
pub open spec fn decimal_of(s: Seq<char>, limit: nat) -> Option<nat> {
    let d = digits_part(s);
    if d.len() > 0 && (forall|i: int| 0 <= i < d.len() ==> is_digit(#[trigger] d[i]))
        && digits_value(d) <= limit {
        Some(digits_value(d))
    } else {
        None
    }
}

/// Adding digits never makes the value smaller.
proof fn lemma_digits_value_grows(s: Seq<char>, k: int)
    requires
        0 <= k <= s.len(),
        forall|i: int| 0 <= i < s.len() ==> is_digit(#[trigger] s[i]),
    ensures
        digits_value(s.subrange(0, k)) <= digits_value(s),
    decreases s.len(),
{
    if k < s.len() {
        let t = s.drop_last();
        assert(t.subrange(0, k) == s.subrange(0, k));
        lemma_digits_value_grows(t, k);
    } else {
        assert(s.subrange(0, k) == s);
    }
}

/// Reads the unsigned decimal number that makes up the whole of `s`, if it
/// is no larger than `limit`.
pub fn parse_decimal(s: &[char], limit: usize) -> (r: Option<usize>)
    ensures
        match r {
            Some(v) => decimal_of(s@, limit as nat) == Some(v as nat),
            None => decimal_of(s@, limit as nat) is None,
        },
{
    let start: usize = if s.len() > 0 && s[0] == '+' {
        1
    } else {
        0
    };
    let ghost d = digits_part(s@);
    assert(d == s@.subrange(start as int, s@.len() as int));
    if start == s.len() {
        return None;
    }
    let mut value: usize = 0;
    let mut i: usize = start;
    while i < s.len()
        invariant
            start <= i <= s@.len(),
            d == digits_part(s@),
            d == s@.subrange(start as int, s@.len() as int),
            forall|j: int| 0 <= j < i - start ==> is_digit(#[trigger] d[j]),
            value as nat == digits_value(d.subrange(0, i - start)),
            value <= limit,
        decreases s@.len() - i,
    {
        let c = s[i];
        assert(d[i - start] == s@[i as int]);
        if !('0' <= c && c <= '9') {
            assert(!is_digit(d[i - start]));
            return None;
        }
        let digit = (c as u32 - '0' as u32) as usize;
        let ghost prefix = d.subrange(0, i - start + 1);
        assert(prefix.drop_last() == d.subrange(0, i - start));
        assert(digits_value(prefix) == value * 10 + digit);
        if digit > limit || value > (limit - digit) / 10 {
            proof {
                assert(value * 10 + digit > limit) by (nonlinear_arith)
                    requires
                        digit > limit || value > (limit - digit) / 10,
                        digit <= 9,
                ;
                assert(forall|j: int| 0 <= j <= i - start ==> is_digit(#[trigger] d[j]));
                if forall|j: int| 0 <= j < d.len() ==> is_digit(#[trigger] d[j]) {
                    lemma_digits_value_grows(d, i - start + 1);
                }
            }
            return None;
        }
        assert(value * 10 + digit <= limit) by (nonlinear_arith)
            requires
                value <= (limit - digit) / 10,
                digit <= limit,
        ;
        value = value * 10 + digit;
        i = i + 1;
    }
    assert(d.subrange(0, i - start) == d);
    Some(value)
}

} // verus!
