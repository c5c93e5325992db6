//! The little of a message body that the core reads itself: the strings at
//! its start, which match rules compare.

use vstd::prelude::*;
use crate::byte_order::{lemma_u32_range, read_u32, u32_from_bytes};
use crate::message::header::EndianSig;
use crate::utils::{padding_for, padding_for_n_bytes};

verus! {

/// The type code of a string.
pub const STRING: u8 = 0x73;

/// The type code of an object path.
pub const OBJECT_PATH: u8 = 0x6f;

/// What reading a string at or behind the place `pos` of `body` gives, in the
/// byte order `sig`: the bytes of the string and the place behind it. A
/// string starts at a multiple of 4 with its length, and a zero byte ends it.
pub open spec fn string_at(sig: EndianSig, body: Seq<u8>, pos: int) -> Option<(Seq<u8>, int)> {
    let start = pos + padding_for(pos, 4);
    if start + 4 > body.len() {
        None
    } else {
        let n = u32_from_bytes(sig, body.skip(start));
        if start + 4 + n + 1 > body.len() || body[start + 4 + n] != 0 {
            None
        } else {
            Some((body.subrange(start + 4, start + 4 + n), start + 4 + n + 1))
        }
    }
}

/// The argument with the place `index` in the body, where it and every
/// argument before it is a string or an object path: its type code and its
/// bytes. `types` is the signature of the body, `i` and `pos` are the place
/// of the argument and of the byte to go on from.
pub open spec fn string_arg_from(
    sig: EndianSig,
    types: Seq<u8>,
    body: Seq<u8>,
    index: int,
    i: int,
    pos: int,
) -> Option<(u8, Seq<u8>)>
    decreases index - i,
{
    if i < 0 || i > index || i >= types.len() || !(types[i] == STRING || types[i] == OBJECT_PATH) {
        None
    } else {
        match string_at(sig, body, pos) {
            None => None,
            Some((value, next)) => if i == index {
                Some((types[i], value))
            } else {
                string_arg_from(sig, types, body, index, i + 1, next)
            },
        }
    }
}

/// The argument with the place `index` in the body, where it and every
/// argument before it is a string or an object path.
pub open spec fn string_arg(sig: EndianSig, types: Seq<u8>, body: Seq<u8>, index: int) -> Option<
    (u8, Seq<u8>),
> {
    string_arg_from(sig, types, body, index, 0, 0)
}

/// Reads the string at or behind the place `pos` of `body`: gives the places
/// where its bytes start and end.
fn read_string_at(sig: EndianSig, body: &[u8], pos: usize) -> (res: Option<(usize, usize)>)
    requires
        pos <= body.len(),
    ensures
        match string_at(sig, body@, pos as int) {
            Some((value, next)) => res matches Some((from, to)) && from <= to < body.len()
                && value == body@.subrange(from as int, to as int) && next == to + 1,
            None => res is None,
        },
{
    let pad = padding_for_n_bytes(pos, 4);
    if body.len() - pos < pad + 4 {
        return None;
    }
    let start = pos + pad;
    let n = read_u32(sig, body, start) as usize;
    proof {
        lemma_u32_range(sig, body@.skip(start as int));
    }
    let rest = body.len() - start - 4;
    if rest < 1 || rest - 1 < n {
        return None;
    }
    if body[start + 4 + n] != 0 {
        return None;
    }
    Some((start + 4, start + 4 + n))
}

/// Reads the argument with the place `index` in the body `body`, whose
/// signature is `types`, in the byte order `sig`.
///
/// Only strings and object paths are read, and only where every argument
/// before them is a string or an object path too; the type code and the
/// bytes of the argument are given.
pub fn read_string_arg(sig: EndianSig, types: &[u8], body: &[u8], index: u8) -> (res: Option<
    (u8, Vec<u8>),
>)
    ensures
        match string_arg(sig, types@, body@, index as int) {
            Some((t, value)) => res matches Some((kind, bytes)) && kind == t && bytes@ == value,
            None => res is None,
        },
{
    let mut i: usize = 0;
    let mut pos: usize = 0;
    loop
        invariant
            i <= index,
            pos <= body.len(),
            string_arg(sig, types@, body@, index as int) == string_arg_from(
                sig,
                types@,
                body@,
                index as int,
                i as int,
                pos as int,
            ),
        decreases index - i,
    {
        if i >= types.len() || !(types[i] == STRING || types[i] == OBJECT_PATH) {
            return None;
        }
        let (from, to) = match read_string_at(sig, body, pos) {
            Some(r) => r,
            None => {
                return None;
            },
        };
        if i == index as usize {
            return Some((types[i], crate::utils::copy_range(body, from, to)));
        }
        i += 1;
        pos = to + 1;
    }
}

} // verus!
