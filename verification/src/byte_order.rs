use vstd::prelude::*;
use crate::message::header::EndianSig;

verus! {

/// Byte order tag of the `byteorder` crate: most significant byte first.
#[verifier::external_type_specification]
#[verifier::external_body]
pub struct ExBigEndian(byteorder::BigEndian);

/// Byte order tag of the `byteorder` crate: least significant byte first.
#[verifier::external_type_specification]
#[verifier::external_body]
pub struct ExLittleEndian(byteorder::LittleEndian);

/// A byte order that knows its D-Bus endian signature.
pub trait ByteOrder {
    /// The signature that this byte order has on the wire.
    spec fn spec_endian_signature() -> EndianSig;

    /// The D-Bus endian signature for this byte order.
    fn endian_signature() -> (sig: EndianSig)
        ensures
            sig == Self::spec_endian_signature(),
    ;
}

impl ByteOrder for byteorder::LittleEndian {
    open spec fn spec_endian_signature() -> EndianSig {
        EndianSig::Little
    }

    fn endian_signature() -> (sig: EndianSig) {
        EndianSig::Little
    }
}

impl ByteOrder for byteorder::BigEndian {
    open spec fn spec_endian_signature() -> EndianSig {
        EndianSig::Big
    }

    fn endian_signature() -> (sig: EndianSig) {
        EndianSig::Big
    }
}

/// Value of the first four bytes of `s`, least significant byte first.
pub open spec fn le_u32(s: Seq<u8>) -> int
    recommends
        s.len() >= 4,
{
    s[0] + s[1] * 0x100 + s[2] * 0x1_0000 + s[3] * 0x100_0000
}

/// Value of the first four bytes of `s`, most significant byte first.
pub open spec fn be_u32(s: Seq<u8>) -> int
    recommends
        s.len() >= 4,
{
    s[3] + s[2] * 0x100 + s[1] * 0x1_0000 + s[0] * 0x100_0000
}

/// The four bytes of `n`, least significant byte first.
pub open spec fn le_bytes(n: u32) -> Seq<u8> {
    seq![
        (n % 0x100) as u8,
        (n / 0x100 % 0x100) as u8,
        (n / 0x1_0000 % 0x100) as u8,
        (n / 0x100_0000) as u8,
    ]
}

/// The four bytes of `n`, most significant byte first.
pub open spec fn be_bytes(n: u32) -> Seq<u8> {
    seq![
        (n / 0x100_0000) as u8,
        (n / 0x1_0000 % 0x100) as u8,
        (n / 0x100 % 0x100) as u8,
        (n % 0x100) as u8,
    ]
}

/// Value of the first four bytes of `s` in the byte order `sig`.
pub open spec fn u32_from_bytes(sig: EndianSig, s: Seq<u8>) -> int
    recommends
        s.len() >= 4,
{
    match sig {
        EndianSig::Little => le_u32(s),
        EndianSig::Big => be_u32(s),
    }
}

/// The four bytes of `n` in the byte order `sig`.
pub open spec fn u32_to_bytes(sig: EndianSig, n: u32) -> Seq<u8> {
    match sig {
        EndianSig::Little => le_bytes(n),
        EndianSig::Big => be_bytes(n),
    }
}

/// Writing a number and reading it back in the same byte order gives the
/// number, whatever follows the four bytes.
pub proof fn lemma_u32_write_read(sig: EndianSig, n: u32, rest: Seq<u8>)
    ensures
        u32_to_bytes(sig, n).len() == 4,
        u32_from_bytes(sig, u32_to_bytes(sig, n) + rest) == n,
        u32_from_bytes(sig, u32_to_bytes(sig, n)) == n,
{
    let b = u32_to_bytes(sig, n);
    let s = b + rest;
    assert(s[0] == b[0] && s[1] == b[1] && s[2] == b[2] && s[3] == b[3]);
}

/// Four bytes read as a number give a number of 32 bits.
pub proof fn lemma_u32_range(sig: EndianSig, s: Seq<u8>)
    ensures
        0 <= u32_from_bytes(sig, s) <= u32::MAX,
{
}

/// `byteorder::LittleEndian::read_u32`: the first four bytes of `buf` as a
/// little-endian number. The outside function panics on a shorter slice.
#[verifier::external_body]
fn le_read_u32(buf: &[u8]) -> (n: u32)
    requires
        buf@.len() >= 4,
    ensures
        n == le_u32(buf@),
{
    <byteorder::LittleEndian as byteorder::ByteOrder>::read_u32(buf)
}

/// `byteorder::BigEndian::read_u32`: the first four bytes of `buf` as a
/// big-endian number. The outside function panics on a shorter slice.
#[verifier::external_body]
fn be_read_u32(buf: &[u8]) -> (n: u32)
    requires
        buf@.len() >= 4,
    ensures
        n == be_u32(buf@),
{
    <byteorder::BigEndian as byteorder::ByteOrder>::read_u32(buf)
}

/// `byteorder::LittleEndian::write_u32` on a four-byte buffer: the bytes of
/// `n`, least significant first.
#[verifier::external_body]
fn le_write_u32(n: u32) -> (out: [u8; 4])
    ensures
        out@ == le_bytes(n),
{
    let mut buf = [0u8; 4];
    <byteorder::LittleEndian as byteorder::ByteOrder>::write_u32(&mut buf, n);
    buf
}

/// `byteorder::BigEndian::write_u32` on a four-byte buffer: the bytes of `n`,
/// most significant first.
#[verifier::external_body]
fn be_write_u32(n: u32) -> (out: [u8; 4])
    ensures
        out@ == be_bytes(n),
{
    let mut buf = [0u8; 4];
    <byteorder::BigEndian as byteorder::ByteOrder>::write_u32(&mut buf, n);
    buf
}

/// `byteorder::NativeEndian::write_u32` on a four-byte buffer: the bytes of
/// `n` in the byte order of the machine that this runs on, which is one of
/// the two.
#[verifier::external_body]
fn ne_write_u32(n: u32) -> (out: [u8; 4])
    ensures
        out@ == le_bytes(n) || out@ == be_bytes(n),
{
    let mut buf = [0u8; 4];
    <byteorder::NativeEndian as byteorder::ByteOrder>::write_u32(&mut buf, n);
    buf
}

/// Signature of the byte order that messages are written in on this machine.
/// Which of the two it is depends on the machine, so nothing is promised of
/// it: [`endian_sig_of_one`] reads it off the machine's bytes of the number 1.
pub fn native_endian_sig() -> (sig: EndianSig) {
    endian_sig_of_one(ne_write_u32(1))
}

/// The byte order in which the four bytes `one` spell the number 1: little
/// endian where the first byte is 1, which is where the least significant
/// byte comes first, and big endian else.
///
/// Of bytes that do spell the number 1 in one of the two orders, this is the
/// order that they are in.
pub fn endian_sig_of_one(one: [u8; 4]) -> (sig: EndianSig)
    ensures
        sig == if one@[0] == 1 {
            EndianSig::Little
        } else {
            EndianSig::Big
        },
        one@ == le_bytes(1) || one@ == be_bytes(1) ==> u32_to_bytes(sig, 1) == one@,
{
    if one[0] == 1 {
        EndianSig::Little
    } else {
        EndianSig::Big
    }
}

/// Reads the four bytes of `buf` that start at `pos` in the byte order `sig`.
pub fn read_u32(sig: EndianSig, buf: &[u8], pos: usize) -> (n: u32)
    requires
        pos + 4 <= buf.len(),
    ensures
        n == u32_from_bytes(sig, buf@.skip(pos as int)),
        n == u32_from_bytes(sig, buf@.subrange(pos as int, pos + 4)),
{
    let part = vstd::slice::slice_subrange(buf, pos, pos + 4);
    proof {
        let a = buf@.skip(pos as int);
        let b = buf@.subrange(pos as int, pos + 4);
        assert(a[0] == b[0] && a[1] == b[1] && a[2] == b[2] && a[3] == b[3]);
    }
    match sig {
        EndianSig::Little => le_read_u32(part),
        EndianSig::Big => be_read_u32(part),
    }
}

/// Appends the four bytes of `n` in the byte order `sig` to `out`.
pub fn write_u32(sig: EndianSig, out: &mut Vec<u8>, n: u32)
    ensures
        final(out)@ == old(out)@ + u32_to_bytes(sig, n),
{
    let bytes = match sig {
        EndianSig::Little => le_write_u32(n),
        EndianSig::Big => be_write_u32(n),
    };
    let ghost before = out@;
    out.push(bytes[0]);
    out.push(bytes[1]);
    out.push(bytes[2]);
    out.push(bytes[3]);
    assert(out@ =~= before + u32_to_bytes(sig, n));
}

} // verus!
