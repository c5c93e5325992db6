//! Percent-encoding of the values in an address.

use vstd::prelude::*;
use crate::error::Error;

verus! {

/// Whether `b` stands for itself in a value: a letter, a digit, or one of
/// `-`, `_`, `/`, `.`, `\` and `*`.
pub open spec fn is_unreserved(b: u8) -> bool {
    (0x30 <= b <= 0x39) || (0x41 <= b <= 0x5a) || (0x61 <= b <= 0x7a) || b == 0x2d || b == 0x5f
        || b == 0x2f || b == 0x2e || b == 0x5c || b == 0x2a
}

/// The hexadecimal digit for `n`, which is below 16, in lower case.
pub open spec fn hex_digit(n: u8) -> u8 {
    if n < 10 {
        (0x30 + n) as u8
    } else {
        (0x61 + n - 10) as u8
    }
}

/// The number that the hexadecimal digit `b` stands for, in either case.
pub open spec fn hex_value(b: u8) -> Option<u8> {
    if 0x30 <= b <= 0x39 {
        Some((b - 0x30) as u8)
    } else if 0x61 <= b <= 0x66 {
        Some((b - 0x61 + 10) as u8)
    } else if 0x41 <= b <= 0x46 {
        Some((b - 0x41 + 10) as u8)
    } else {
        None
    }
}

/// One byte of a value as it stands in an address: itself where it is
/// unreserved, else `%` and its two hexadecimal digits.
pub open spec fn encode_byte(b: u8) -> Seq<u8> {
    if is_unreserved(b) {
        seq![b]
    } else {
        seq![0x25u8, hex_digit(b / 16), hex_digit(b % 16)]
    }
}

/// A value as it stands in an address.
pub open spec fn encode(value: Seq<u8>) -> Seq<u8>
    decreases value.len(),
{
    if value.len() == 0 {
        Seq::empty()
    } else {
        encode_byte(value[0]) + encode(value.skip(1))
    }
}

/// `rest` with `first` in front of it, where there is a `rest`.
pub open spec fn prepend(first: Seq<u8>, rest: Option<Seq<u8>>) -> Option<Seq<u8>> {
    match rest {
        Some(r) => Some(first + r),
        None => None,
    }
}

/// The value that `s` stands for in an address, or nothing where `s` holds a
/// character that may not stand there or a `%` without two hexadecimal
/// digits behind it.
pub open spec fn decode(s: Seq<u8>) -> Option<Seq<u8>>
    decreases s.len(),
{
    if s.len() == 0 {
        Some(Seq::empty())
    } else if s[0] == 0x25 {
        if s.len() < 3 {
            None
        } else {
            match (hex_value(s[1]), hex_value(s[2])) {
                (Some(hi), Some(lo)) => prepend(seq![(hi * 16 + lo) as u8], decode(s.skip(3))),
                _ => None,
            }
        }
    } else if is_unreserved(s[0]) {
        prepend(seq![s[0]], decode(s.skip(1)))
    } else {
        None
    }
}

/// Whether every byte of `s` may stand in an encoded value: it is
/// unreserved, or `%`.
pub open spec fn is_encoded(s: Seq<u8>) -> bool {
    forall|i: int| 0 <= i < s.len() ==> is_unreserved(#[trigger] s[i]) || s[i] == 0x25
}

/// The two digits of a byte give the byte back.
pub proof fn lemma_hex_digits(b: u8)
    ensures
        hex_value(hex_digit(b / 16)) == Some((b / 16) as u8),
        hex_value(hex_digit(b % 16)) == Some((b % 16) as u8),
        (b / 16) * 16 + b % 16 == b,
        is_unreserved(hex_digit(b / 16)),
        is_unreserved(hex_digit(b % 16)),
{
}

/// The encoding of two values, one after the other, is the encoding of both
/// joined.
pub proof fn lemma_encode_concat(a: Seq<u8>, b: Seq<u8>)
    ensures
        encode(a + b) == encode(a) + encode(b),
    decreases a.len(),
{
    if a.len() == 0 {
        assert(a + b =~= b);
        assert(encode(a) + encode(b) =~= encode(b));
    } else {
        lemma_encode_concat(a.skip(1), b);
        assert((a + b).skip(1) =~= a.skip(1) + b);
        assert((a + b)[0] == a[0]);
        assert(encode(a + b) =~= encode(a) + encode(b));
    }
}

/// Decoding undoes encoding, for every sequence of bytes; and an encoded
/// value holds unreserved characters and `%` only.
pub proof fn lemma_decode_encode(value: Seq<u8>)
    ensures
        decode(encode(value)) == Some(value),
        is_encoded(encode(value)),
    decreases value.len(),
{
    if value.len() > 0 {
        let b = value[0];
        let rest = value.skip(1);
        lemma_decode_encode(rest);
        lemma_hex_digits(b);
        let e = encode(value);
        let tail = encode(rest);
        if is_unreserved(b) {
            assert(e =~= seq![b] + tail);
            assert(e.skip(1) =~= tail);
            assert(seq![b] + rest =~= value);
        } else {
            let head = encode_byte(b);
            assert(e =~= head + tail);
            assert(e[0] == head[0] && e[1] == head[1] && e[2] == head[2]);
            assert(e.skip(3) =~= tail);
            assert(seq![b] + rest =~= value);
        }
        assert forall|i: int| 0 <= i < e.len() implies is_unreserved(#[trigger] e[i]) || e[i]
            == 0x25 by {
            let head = encode_byte(b);
            if i >= head.len() {
                assert(e[i] == tail[i - head.len()]);
            } else {
                assert(e[i] == head[i]);
            }
        }
    }
}

/// Appends `value` to `out` as it stands in an address.
pub fn encode_percents(out: &mut Vec<u8>, value: &[u8])
    ensures
        final(out)@ == old(out)@ + encode(value@),
{
    let ghost before = out@;
    let n = value.len();
    let mut i: usize = 0;
    while i < n
        invariant
            i <= n,
            n == value@.len(),
            out@ == before + encode(value@.take(i as int)),
        decreases n - i,
    {
        let b = value[i];
        proof {
            let prefix = value@.take(i as int);
            lemma_encode_concat(prefix, seq![b]);
            assert(value@.take(i + 1) =~= prefix + seq![b]);
            assert(seq![b].skip(1) =~= Seq::<u8>::empty());
            assert(encode(seq![b]) =~= encode_byte(b)) by {
                reveal_with_fuel(encode, 2);
            }
        }
        let ghost so_far = out@;
        if unreserved(b) {
            out.push(b);
        } else {
            out.push(0x25);
            out.push(hex_digit_of(b / 16));
            out.push(hex_digit_of(b % 16));
        }
        assert(out@ =~= so_far + encode_byte(b));
        i += 1;
    }
    assert(value@.take(n as int) =~= value@);
}

/// Whether `b` stands for itself in a value.
pub fn unreserved(b: u8) -> (r: bool)
    ensures
        r == is_unreserved(b),
{
    (0x30 <= b && b <= 0x39) || (0x41 <= b && b <= 0x5a) || (0x61 <= b && b <= 0x7a) || b == 0x2d
        || b == 0x5f || b == 0x2f || b == 0x2e || b == 0x5c || b == 0x2a
}

/// The hexadecimal digit for `n`, in lower case.
fn hex_digit_of(n: u8) -> (d: u8)
    requires
        n < 16,
    ensures
        d == hex_digit(n),
{
    if n < 10 {
        0x30 + n
    } else {
        0x61 + n - 10
    }
}

/// The number that the hexadecimal digit `b` stands for.
fn hex_value_of(b: u8) -> (v: Option<u8>)
    ensures
        v == hex_value(b),
        v matches Some(n) ==> n < 16,
{
    if 0x30 <= b && b <= 0x39 {
        Some(b - 0x30)
    } else if 0x61 <= b && b <= 0x66 {
        Some(b - 0x61 + 10)
    } else if 0x41 <= b && b <= 0x46 {
        Some(b - 0x41 + 10)
    } else {
        None
    }
}

/// The value that `value` stands for in an address.
///
/// Fails with an `Address` error on a character that may not stand in a
/// value, and on a `%` without two hexadecimal digits behind it.
pub fn decode_percents(value: &[u8]) -> (res: Result<Vec<u8>, Error>)
    ensures
        match decode(value@) {
            Some(v) => res matches Ok(out) && out@ == v,
            None => res matches Err(e) && e is Address,
        },
{
    let n = value.len();
    let mut decoded: Vec<u8> = Vec::new();
    let mut i: usize = 0;
    assert(value@.skip(0) =~= value@);
    while i < n
        invariant
            i <= n,
            n == value@.len(),
            decode(value@) == prepend(decoded@, decode(value@.skip(i as int))),
        decreases n - i,
    {
        let ghost s = value@.skip(i as int);
        let ghost acc = decoded@;
        let c = value[i];
        assert(s[0] == c);
        if c == 0x25 {
            if n - i < 3 {
                return Err(Error::Address("incomplete percent-encoded sequence".to_string()));
            }
            assert(s[1] == value@[i + 1] && s[2] == value@[i + 2]);
            let byte = match (hex_value_of(value[i + 1]), hex_value_of(value[i + 2])) {
                (Some(hi), Some(lo)) => hi * 16 + lo,
                _ => {
                    return Err(
                        Error::Address("invalid hexadecimal character in address".to_string()),
                    );
                },
            };
            proof {
                assert(s.skip(3) =~= value@.skip(i + 3));
                lemma_prepend_push(acc, byte, decode(value@.skip(i + 3)));
            }
            decoded.push(byte);
            i += 3;
        } else if unreserved(c) {
            proof {
                assert(s.skip(1) =~= value@.skip(i + 1));
                lemma_prepend_push(acc, c, decode(value@.skip(i + 1)));
            }
            decoded.push(c);
            i += 1;
        } else {
            return Err(Error::Address("invalid character in address".to_string()));
        }
    }
    assert(decoded@ + Seq::<u8>::empty() =~= decoded@);
    Ok(decoded)
}

/// Putting `b` behind `acc` and then `rest` behind both is putting `b` and
/// `rest` behind `acc`.
proof fn lemma_prepend_push(acc: Seq<u8>, b: u8, rest: Option<Seq<u8>>)
    ensures
        prepend(acc, prepend(seq![b], rest)) == prepend(acc.push(b), rest),
{
    match rest {
        Some(r) => {
            assert(acc + (seq![b] + r) =~= acc.push(b) + r);
        },
        None => {},
    }
}

} // verus!
