//! Decimal numbers in the values of an address.

use vstd::prelude::*;

verus! {

/// Whether `b` is a decimal digit.
pub open spec fn is_decimal_digit(b: u8) -> bool {
    0x30 <= b <= 0x39
}

/// The number that the decimal digits `s` spell, or nothing where `s` is
/// empty or holds anything but digits.
pub open spec fn digits_value(s: Seq<u8>) -> Option<nat>
    decreases s.len(),
{
    if s.len() == 0 || !is_decimal_digit(s.last()) {
        None
    } else if s.len() == 1 {
        Some((s.last() - 0x30) as nat)
    } else {
        match digits_value(s.drop_last()) {
            Some(n) => Some(n * 10 + (s.last() - 0x30) as nat),
            None => None,
        }
    }
}

/// The number that `s` spells: decimal digits, with a `+` in front of them
/// or without.
pub open spec fn number_value(s: Seq<u8>) -> Option<nat> {
    if s.len() > 0 && s[0] == 0x2b {
        digits_value(s.skip(1))
    } else {
        digits_value(s)
    }
}

/// The decimal digits of `n`, without zeros in front.
pub open spec fn decimal(n: nat) -> Seq<u8>
    decreases n,
{
    if n < 10 {
        seq![(0x30 + n) as u8]
    } else {
        decimal(n / 10).push((0x30 + n % 10) as u8)
    }
}

/// Reading the digits of a number gives the number; the digits are digits.
pub proof fn lemma_decimal_value(n: nat)
    ensures
        number_value(decimal(n)) == Some(n),
        digits_value(decimal(n)) == Some(n),
        decimal(n).len() > 0,
        forall|i: int| 0 <= i < decimal(n).len() ==> is_decimal_digit(#[trigger] decimal(n)[i]),
    decreases n,
{
    let s = decimal(n);
    if n < 10 {
        assert(s.len() == 1);
    } else {
        lemma_decimal_value(n / 10);
        let front = decimal(n / 10);
        assert(s.drop_last() =~= front);
        assert(s.last() == (0x30 + n % 10) as u8);
        assert((n / 10) * 10 + n % 10 == n);
        assert forall|i: int| 0 <= i < s.len() implies is_decimal_digit(#[trigger] s[i]) by {
            if i < front.len() {
                assert(s[i] == front[i]);
            }
        }
    }
    assert(s[0] != 0x2b);
}

/// The digits read up to any place are a number where those read up to a
/// later place are one, and a smaller one.
proof fn lemma_digits_prefix(s: Seq<u8>, i: int)
    requires
        0 < i <= s.len(),
        digits_value(s) is Some,
    ensures
        digits_value(s.take(i)) is Some,
        digits_value(s.take(i)).unwrap() <= digits_value(s).unwrap(),
    decreases s.len() - i,
{
    if i < s.len() {
        lemma_digits_prefix(s, i + 1);
        let t = s.take(i + 1);
        assert(t.drop_last() =~= s.take(i));
    } else {
        assert(s.take(i) =~= s);
    }
}

/// The number below 2^32 that `s` spells, or nothing where `s` spells no
/// number or a greater one.
pub fn parse_u32(s: &[u8]) -> (res: Option<u32>)
    ensures
        res == match number_value(s@) {
            Some(n) => if n <= u32::MAX {
                Some(n as u32)
            } else {
                None
            },
            None => None,
        },
{
    let n = s.len();
    let start: usize = if n > 0 && s[0] == 0x2b {
        1
    } else {
        0
    };
    let ghost digits = s@.skip(start as int);
    assert(s@.skip(0) =~= s@);
    assert(number_value(s@) == digits_value(digits));
    if start == n {
        assert(digits.len() == 0);
        return None;
    }
    let mut acc: u64 = 0;
    let mut i: usize = start;
    while i < n
        invariant
            start <= i <= n,
            n == s@.len(),
            start < n,
            digits == s@.skip(start as int),
            number_value(s@) == digits_value(digits),
            i > start ==> digits_value(digits.take(i - start)) == Some(acc as nat),
            i == start ==> acc == 0,
            acc <= u32::MAX,
        decreases n - i,
    {
        let b = s[i];
        let ghost prefix = digits.take(i - start + 1);
        proof {
            assert(prefix.last() == b);
            assert(prefix.drop_last() =~= digits.take(i - start));
            assert(i == start ==> prefix.len() == 1);
            assert(is_decimal_digit(b) ==> digits_value(prefix) == Some(
                (acc * 10 + (b - 0x30)) as nat,
            ));
            assert(!is_decimal_digit(b) ==> digits_value(prefix) is None);
        }
        if b < 0x30 || b > 0x39 {
            proof {
                if digits_value(digits) is Some {
                    lemma_digits_prefix(digits, i - start + 1);
                }
            }
            return None;
        }
        let next = acc * 10 + (b - 0x30) as u64;
        if next > 0xffff_ffff {
            proof {
                if digits_value(digits) is Some {
                    lemma_digits_prefix(digits, i - start + 1);
                }
            }
            return None;
        }
        acc = next;
        i += 1;
    }
    assert(digits.take(n - start) =~= digits);
    Some(acc as u32)
}

/// Appends the decimal digits of `n` to `out`.
pub fn write_decimal(out: &mut Vec<u8>, n: u32)
    ensures
        final(out)@ == old(out)@ + decimal(n as nat),
    decreases n,
{
    let ghost before = out@;
    if n < 10 {
        out.push(0x30 + n as u8);
        assert(out@ =~= before + decimal(n as nat));
    } else {
        write_decimal(out, n / 10);
        out.push(0x30 + (n % 10) as u8);
        assert(out@ =~= before + decimal(n as nat));
    }
}

} // verus!
