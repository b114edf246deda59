//! Base-3 numeral formatting.
//!
//! A signed integer becomes its base-3 digit string, most significant digit
//! first, with a leading minus for negative values and zero rendered as the
//! single digit `0`.  The minimum representable value is handled through its
//! unsigned magnitude, so no negation can overflow.

use vstd::prelude::*;

verus! {

/// Digits of a non-negative value in base 3 as ASCII bytes, most significant
/// first; the empty sequence for zero.
pub open spec fn spec_digits(m: nat) -> Seq<u8>
    decreases m,
{
    if m == 0 {
        Seq::empty()
    } else {
        spec_digits(m / 3).push((48 + m % 3) as u8)
    }
}

/// The base-3 rendering of a signed integer: `0` for zero, a leading minus
/// byte for negative values.
pub open spec fn spec_format(n: int) -> Seq<u8> {
    if n == 0 {
        seq![48u8]
    } else if n > 0 {
        spec_digits(n as nat)
    } else {
        seq![45u8] + spec_digits((-n) as nat)
    }
}

/// Reparsing a digit string in base 3, most significant digit first.
pub open spec fn spec_parse_digits(s: Seq<u8>) -> int
    decreases s.len(),
{
    if s.len() == 0 {
        0
    } else {
        spec_parse_digits(s.drop_last()) * 3 + (s.last() - 48)
    }
}

/// Reparsing a rendered number, honouring a leading minus byte.
pub open spec fn spec_parse(s: Seq<u8>) -> int {
    if s.len() > 0 && s[0] == 45 {
        -spec_parse_digits(s.skip(1))
    } else {
        spec_parse_digits(s)
    }
}

/// Every digit byte of a base-3 rendering lies between `0` and `2`.
pub proof fn lemma_digits_in_range(m: nat)
    ensures
        forall|i: int| 0 <= i < spec_digits(m).len() ==> 48 <= #[trigger] spec_digits(m)[i] <= 50,
    decreases m,
{
    if m != 0 {
        lemma_digits_in_range(m / 3);
        let s = spec_digits(m);
        assert forall|i: int| 0 <= i < s.len() implies 48 <= #[trigger] s[i] <= 50 by {
            if i < s.len() - 1 {
                assert(s[i] == spec_digits(m / 3)[i]);
            } else {
                assert(s[i] == 48 + m % 3);
            }
        }
    }
}

/// A nonzero value renders to at least one digit.
pub proof fn lemma_digits_len(m: nat)
    ensures
        m > 0 ==> spec_digits(m).len() >= 1,
{
}

/// Reparsing the digits of a non-negative value gives the value back.
pub proof fn lemma_parse_digits_round_trip(m: nat)
    ensures
        spec_parse_digits(spec_digits(m)) == m,
    decreases m,
{
    if m != 0 {
        lemma_parse_digits_round_trip(m / 3);
        assert(spec_digits(m).drop_last() =~= spec_digits(m / 3));
    }
}

/// Reparsing a rendered signed integer digit by digit, with sign handling,
/// gives the integer back - the width's minimum value included.
pub proof fn lemma_format_round_trip(n: int)
    ensures
        spec_parse(spec_format(n)) == n,
{
    if n == 0 {
        let s = seq![48u8];
        assert(s.len() == 1 && s[0] == 48);
        assert(s.last() == 48);
        assert(s.drop_last() =~= Seq::<u8>::empty());
        assert(spec_parse_digits(s.drop_last()) == 0);
        assert(spec_parse_digits(s) == 0);
        assert(spec_parse(spec_format(n)) == n);
    } else if n > 0 {
        let s = spec_digits(n as nat);
        lemma_digits_in_range(n as nat);
        lemma_digits_len(n as nat);
        lemma_parse_digits_round_trip(n as nat);
        assert(48 <= s[0] <= 50);
        assert(spec_parse(s) == spec_parse_digits(s));
        assert(spec_parse(spec_format(n)) == n);
    } else {
        let s = seq![45u8] + spec_digits((-n) as nat);
        lemma_parse_digits_round_trip((-n) as nat);
        assert(s[0] == 45);
        assert(s.skip(1) =~= spec_digits((-n) as nat));
        assert(spec_parse(spec_format(n)) == n);
    }
}

/// Digits of a non-negative value in base 3, most significant first.
fn digits(m: u64) -> (r: Vec<u8>)
    ensures
        r@ == spec_digits(m as nat),
    decreases m,
{
    if m == 0 {
        let r: Vec<u8> = Vec::new();
        proof {
            assert(r@ =~= spec_digits(0));
        }
        r
    } else {
        let mut r = digits(m / 3);
        r.push(48 + (m % 3) as u8);
        r
    }
}

/// The base-3 text of a signed integer: its digits, most significant first,
/// with a leading minus byte for negative values and zero rendered as `0`.
pub fn number_to_text(number: i64) -> (r: Vec<u8>)
    ensures
        r@ == spec_format(number as int),
{
    if number == 0 {
        let mut r: Vec<u8> = Vec::new();
        r.push(48);
        proof {
            assert(r@ =~= spec_format(0));
        }
        r
    } else if number > 0 {
        digits(number as u64)
    } else {
        let magnitude: u64 = if number == i64::MIN {
            9223372036854775808u64
        } else {
            (-number) as u64
        };
        let mut r: Vec<u8> = Vec::new();
        r.push(45);
        let mut d = digits(magnitude);
        r.append(&mut d);
        proof {
            assert(r@ =~= spec_format(number as int));
        }
        r
    }
}

} // verus!
