use vstd::prelude::*;

verus! {

/// Number of zero bytes needed after `n` bytes to reach a multiple of `align`.
pub open spec fn padding_for(n: int, align: int) -> int
    recommends
        align > 0,
{
    (align - n % align) % align
}

/// Number of zero bytes needed after `n` bytes to reach a multiple of 8.
pub open spec fn pad8(n: int) -> int {
    padding_for(n, 8)
}

/// Padding that brings `value` up to a multiple of `align`.
pub fn padding_for_n_bytes(value: usize, align: usize) -> (padding: usize)
    requires
        align > 0,
    ensures
        padding == padding_for(value as int, align as int),
        padding < align,
        (value + padding) % (align as int) == 0,
{
    let rem = value % align;
    proof {
        lemma_padding_for(value as int, align as int);
    }
    if rem == 0 {
        0
    } else {
        align - rem
    }
}

/// Padding that brings `value` up to a multiple of 8.
pub fn padding_for_8_bytes(value: usize) -> (padding: usize)
    ensures
        padding == pad8(value as int),
        padding < 8,
        (value + padding) % 8 == 0,
{
    padding_for_n_bytes(value, 8)
}

/// `n` zero bytes.
pub open spec fn zeros(n: int) -> Seq<u8> {
    Seq::new(n as nat, |i: int| 0u8)
}

/// `s` followed by the zero bytes that bring its length to a multiple of 8.
pub open spec fn padded8(s: Seq<u8>) -> Seq<u8> {
    s + zeros(pad8(s.len() as int))
}

/// Whether every byte of `s` is zero.
pub open spec fn all_zero(s: Seq<u8>) -> bool {
    forall|i: int| 0 <= i < s.len() ==> s[i] == 0
}

/// Appends `bytes` to `out`.
pub fn append_bytes(out: &mut Vec<u8>, bytes: &[u8])
    ensures
        final(out)@ == old(out)@ + bytes@,
{
    let ghost before = out@;
    out.extend_from_slice(bytes);
    assert(out@ =~= before + bytes@);
}

/// Appends `n` zero bytes to `out`.
pub fn append_zeros(out: &mut Vec<u8>, n: usize)
    ensures
        final(out)@ == old(out)@ + zeros(n as int),
{
    let ghost before = out@;
    let mut i: usize = 0;
    while i < n
        invariant
            i <= n,
            out@ == before + zeros(i as int),
        decreases n - i,
    {
        out.push(0);
        i += 1;
        assert(out@ =~= before + zeros(i as int));
    }
}

/// Whether the bytes of `buf` from `from` up to `to` are all zero.
pub fn is_zero_range(buf: &[u8], from: usize, to: usize) -> (ok: bool)
    requires
        from <= to <= buf.len(),
    ensures
        ok == all_zero(buf@.subrange(from as int, to as int)),
{
    let mut i: usize = from;
    while i < to
        invariant
            from <= i <= to <= buf.len(),
            forall|j: int| from <= j < i ==> buf@[j] == 0,
        decreases to - i,
    {
        if buf[i] != 0 {
            assert(buf@.subrange(from as int, to as int)[i - from] != 0);
            return false;
        }
        i += 1;
    }
    assert forall|j: int| 0 <= j < to - from implies buf@.subrange(from as int, to as int)[j]
        == 0 by {
        assert(buf@[from + j] == 0);
    }
    true
}

/// Whether `a` and `b` hold the same bytes.
pub fn bytes_eq(a: &[u8], b: &[u8]) -> (eq: bool)
    ensures
        eq == (a@ == b@),
{
    if a.len() != b.len() {
        return false;
    }
    let n = a.len();
    let mut i: usize = 0;
    while i < n
        invariant
            i <= n,
            n == a@.len(),
            n == b@.len(),
            forall|j: int| 0 <= j < i ==> a@[j] == b@[j],
        decreases n - i,
    {
        if a[i] != b[i] {
            return false;
        }
        i += 1;
    }
    assert(a@ =~= b@);
    true
}

/// A copy of the bytes of `buf` from `from` up to `to`.
pub fn copy_range(buf: &[u8], from: usize, to: usize) -> (out: Vec<u8>)
    requires
        from <= to <= buf.len(),
    ensures
        out@ == buf@.subrange(from as int, to as int),
{
    vstd::slice::slice_to_vec(vstd::slice::slice_subrange(buf, from, to))
}

/// The padding is the least amount that aligns: it is below `align`, and adding
/// it gives a multiple of `align`.
pub proof fn lemma_padding_for(n: int, align: int)
    requires
        n >= 0,
        align > 0,
    ensures
        0 <= padding_for(n, align) < align,
        (n + padding_for(n, align)) % align == 0,
        n % align == 0 ==> padding_for(n, align) == 0,
        n % align != 0 ==> padding_for(n, align) == align - n % align,
{
    let r = n % align;
    assert(0 <= r < align) by (nonlinear_arith)
        requires
            r == n % align,
            align > 0,
    ;
    if r == 0 {
        assert((align - 0) % align == 0) by (nonlinear_arith)
            requires
                align > 0,
        ;
    } else {
        assert((align - r) % align == align - r) by (nonlinear_arith)
            requires
                0 < r < align,
        ;
        assert((n + (align - r)) % align == 0) by (nonlinear_arith)
            requires
                r == n % align,
                align > 0,
                n >= 0,
        ;
    }
}

} // verus!
