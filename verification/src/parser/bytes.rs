use vstd::prelude::*;

verus! {

/// 256 to the power `n`: the number of values of an `n`-byte field.
pub open spec fn spec_pow256(n: int) -> int
    decreases n,
{
    if n <= 0 {
        1
    } else {
        256 * spec_pow256(n - 1)
    }
}

/// The unsigned big-endian integer held by the `n` bytes of `data`
/// starting at `off`: each byte extends the value of the bytes before
/// it by one factor of 256.
pub open spec fn spec_be_uint(data: Seq<u8>, off: int, n: int) -> int
    decreases n,
{
    if n <= 0 {
        0
    } else {
        spec_be_uint(data, off, n - 1) * 256 + data[off + n - 1]
    }
}

/// The signed big-endian integer of `n` bytes at `off`: the unsigned
/// value, reduced by `256^n` when its top bit is set.
pub open spec fn spec_be_sint(data: Seq<u8>, off: int, n: int) -> int {
    let raw = spec_be_uint(data, off, n);
    if 2 * raw >= spec_pow256(n) {
        raw - spec_pow256(n)
    } else {
        raw
    }
}

pub proof fn lemma_be_uint_bound(data: Seq<u8>, off: int, n: int)
    ensures
        0 <= spec_be_uint(data, off, n) < spec_pow256(n),
    decreases n,
{
    if n > 0 {
        lemma_be_uint_bound(data, off, n - 1);
    }
}

/// Reading inside a cut-out window reads the same bytes as reading
/// the underlying sequence at the shifted offset.
pub proof fn lemma_be_uint_subrange(data: Seq<u8>, a: int, b: int, off: int, n: int)
    requires
        0 <= a <= b <= data.len(),
        0 <= off,
        off + n <= b - a,
    ensures
        spec_be_uint(data.subrange(a, b), off, n) == spec_be_uint(data, a + off, n),
    decreases n,
{
    if n > 0 {
        lemma_be_uint_subrange(data, a, b, off, n - 1);
    }
}

/// Read the unsigned big-endian integer of `n <= 8` bytes at `off`.
pub fn read_be_uint(data: &[u8], off: usize, n: usize) -> (r: u64)
    requires
        n <= 8,
        off + n <= data@.len(),
    ensures
        r == spec_be_uint(data@, off as int, n as int),
{
    proof {
        lemma_be_uint_bound(data@, off as int, 0);
    }
    let dlen = data.len();
    let mut acc: u64 = 0;
    let mut i: usize = 0;
    while i < n
        invariant
            i <= n,
            n <= 8,
            off + n <= dlen,
            dlen == data@.len(),
            acc == spec_be_uint(data@, off as int, i as int),
        decreases n - i,
    {
        proof {
            lemma_be_uint_bound(data@, off as int, i as int);
            assert(spec_pow256(i as int) <= spec_pow256(7)) by {
                if i <= 7 {
                    reveal_with_fuel(spec_pow256, 9);
                    assert(spec_be_uint(data@, off as int, i as int) < spec_pow256(i as int));
                }
            }
            reveal_with_fuel(spec_pow256, 9);
        }
        acc = acc * 256 + (data[off + i] as u64);
        i = i + 1;
    }
    acc
}

/// Read a big-endian 16-bit integer at `off`.
pub fn read_be_u16(data: &[u8], off: usize) -> (r: u16)
    requires
        off + 2 <= data@.len(),
    ensures
        r == spec_be_uint(data@, off as int, 2),
{
    let r = read_be_uint(data, off, 2);
    proof {
        lemma_be_uint_bound(data@, off as int, 2);
        reveal_with_fuel(spec_pow256, 3);
    }
    r as u16
}

/// Read a big-endian 32-bit integer at `off`.
pub fn read_be_u32(data: &[u8], off: usize) -> (r: u32)
    requires
        off + 4 <= data@.len(),
    ensures
        r == spec_be_uint(data@, off as int, 4),
{
    let r = read_be_uint(data, off, 4);
    proof {
        lemma_be_uint_bound(data@, off as int, 4);
        reveal_with_fuel(spec_pow256, 5);
    }
    r as u32
}

/// Copy the `n` bytes at `off` into a fresh vector.
pub fn copy_bytes(data: &[u8], off: usize, n: usize) -> (r: Vec<u8>)
    requires
        off + n <= data@.len(),
    ensures
        r@ == data@.subrange(off as int, off + n),
{
    let dlen = data.len();
    let mut out: Vec<u8> = Vec::new();
    let mut i: usize = 0;
    while i < n
        invariant
            i <= n,
            off + n <= dlen,
            dlen == data@.len(),
            out@ == data@.subrange(off as int, off + i),
        decreases n - i,
    {
        out.push(data[off + i]);
        proof {
            assert(out@ =~= data@.subrange(off as int, off + i + 1));
        }
        i = i + 1;
    }
    out
}

} // verus!
