//! ASCII rendering of numbers, for the boot console: lowercase hexadecimal
//! without leading zeros, and decimal.
use vstd::prelude::*;

verus! {

/// The ASCII character of a hexadecimal digit (`0`-`9`, `a`-`f`).
pub open spec fn hex_digit(d: nat) -> u8 {
    if d < 10 {
        (48 + d) as u8
    } else {
        (87 + d) as u8
    }
}

/// The lowercase hexadecimal text of `n`, without prefix or leading zeros.
pub open spec fn hex_text(n: nat) -> Seq<u8>
    decreases n,
{
    if n < 16 {
        seq![hex_digit(n)]
    } else {
        hex_text(n / 16).push(hex_digit(n % 16))
    }
}

/// The decimal text of `n`, without leading zeros.
pub open spec fn dec_text(n: nat) -> Seq<u8>
    decreases n,
{
    if n < 10 {
        seq![(48 + n) as u8]
    } else {
        dec_text(n / 10).push((48 + n % 10) as u8)
    }
}

/// The value of a hexadecimal digit character, for `0`-`9` and `a`-`f`.
pub open spec fn hex_digit_value(c: u8) -> nat {
    if 48 <= c <= 57 {
        (c - 48) as nat
    } else {
        (c - 87) as nat
    }
}

pub open spec fn is_hex_digit(c: u8) -> bool {
    (48 <= c <= 57) || (97 <= c <= 102)
}

/// The number that a run of hexadecimal digits spells.
pub open spec fn hex_value(s: Seq<u8>) -> nat
    decreases s.len(),
{
    if s.len() == 0 {
        0
    } else {
        hex_value(s.drop_last()) * 16 + hex_digit_value(s.last())
    }
}

/// The number that a run of decimal digits spells.
pub open spec fn dec_value(s: Seq<u8>) -> nat
    decreases s.len(),
{
    if s.len() == 0 {
        0
    } else {
        dec_value(s.drop_last()) * 10 + (s.last() - 48) as nat
    }
}

/// The character of a digit below 16.
fn hex_digit_char(d: u64) -> (c: u8)
    requires
        d < 16,
    ensures
        c == hex_digit(d as nat),
{
    if d < 10 {
        48 + d as u8
    } else {
        87 + d as u8
    }
}

/// Appends the lowercase hexadecimal text of `n` (as `{:x}` formats it).
pub fn push_hex(out: &mut Vec<u8>, n: u64)
    ensures
        final(out)@ == old(out)@ + hex_text(n as nat),
    decreases n,
{
    if n >= 16 {
        push_hex(out, n / 16);
    }
    let c = hex_digit_char(n % 16);
    out.push(c);
    proof {
        if n >= 16 {
            assert(hex_text(n as nat) == hex_text((n / 16) as nat).push(hex_digit((n % 16) as nat)));
        }
        assert(final(out)@ =~= old(out)@ + hex_text(n as nat));
    }
}

/// Appends the decimal text of `n` (as `{}` formats it).
pub fn push_decimal(out: &mut Vec<u8>, n: u64)
    ensures
        final(out)@ == old(out)@ + dec_text(n as nat),
    decreases n,
{
    if n >= 10 {
        push_decimal(out, n / 10);
    }
    let c = 48 + (n % 10) as u8;
    out.push(c);
    proof {
        if n >= 10 {
            assert(dec_text(n as nat) == dec_text((n / 10) as nat).push((48 + n % 10) as u8));
        }
        assert(final(out)@ =~= old(out)@ + dec_text(n as nat));
    }
}

/// The hexadecimal text of a number consists of hexadecimal digits, starts
/// with a non-zero digit unless the number is zero, and spells the number.
pub proof fn lemma_hex_text_roundtrip(n: nat)
    ensures
        hex_text(n).len() >= 1,
        forall|i: int| 0 <= i < hex_text(n).len() ==> is_hex_digit(#[trigger] hex_text(n)[i]),
        n != 0 ==> hex_text(n)[0] != 48,
        hex_value(hex_text(n)) == n,
    decreases n,
{
    if n < 16 {
        let s = hex_text(n);
        assert(s.drop_last() == Seq::<u8>::empty());
        assert(hex_value(Seq::<u8>::empty()) == 0);
        assert(hex_digit_value(hex_digit(n)) == n);
    } else {
        lemma_hex_text_roundtrip(n / 16);
        let s = hex_text(n);
        let p = hex_text(n / 16);
        assert(s.drop_last() == p);
        assert(hex_digit_value(hex_digit(n % 16)) == n % 16);
        assert(n == (n / 16) * 16 + n % 16) by (nonlinear_arith);
        assert(s[0] == p[0]);
        assert forall|i: int| 0 <= i < s.len() implies is_hex_digit(#[trigger] s[i]) by {
            if i < p.len() {
                assert(s[i] == p[i]);
            }
        }
    }
}

/// The decimal text of a number consists of decimal digits, starts with a
/// non-zero digit unless the number is zero, and spells the number.
pub proof fn lemma_dec_text_roundtrip(n: nat)
    ensures
        dec_text(n).len() >= 1,
        forall|i: int| 0 <= i < dec_text(n).len() ==> 48 <= #[trigger] dec_text(n)[i] <= 57,
        n != 0 ==> dec_text(n)[0] != 48,
        dec_value(dec_text(n)) == n,
    decreases n,
{
    if n < 10 {
        let s = dec_text(n);
        assert(s.drop_last() == Seq::<u8>::empty());
        assert(dec_value(Seq::<u8>::empty()) == 0);
    } else {
        lemma_dec_text_roundtrip(n / 10);
        let s = dec_text(n);
        let p = dec_text(n / 10);
        assert(s.drop_last() == p);
        assert(n == (n / 10) * 10 + n % 10) by (nonlinear_arith);
        assert(s[0] == p[0]);
        assert forall|i: int| 0 <= i < s.len() implies 48 <= #[trigger] s[i] <= 57 by {
            if i < p.len() {
                assert(s[i] == p[i]);
            }
        }
    }
}

} // verus!
