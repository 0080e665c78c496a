use crate::error::SqliteVizError;
use vstd::prelude::*;

verus! {

/// One step of varint decoding: the accumulator after the bytes before
/// index `i` have been folded in, continuing until a terminating byte
/// (high bit clear), the ninth byte, or the end of the buffer.
///
/// Each of the first eight bytes contributes its low seven bits; the
/// ninth byte, when reached, contributes all eight bits.
pub open spec fn spec_varint_step(bytes: Seq<u8>, i: int, acc: u64) -> (u64, int)
    decreases 8 - i,
{
    if i < 0 || i > 8 || i >= bytes.len() {
        (acc, i)
    } else {
        let b = bytes[i];
        if i == 8 {
            ((acc << 8) | (b as u64), 9)
        } else {
            let acc2 = (acc << 7) | ((b & 0x7f) as u64);
            if b & 0x80 == 0 {
                (acc2, i + 1)
            } else if i + 1 >= bytes.len() {
                (acc2, i + 1)
            } else {
                spec_varint_step(bytes, i + 1, acc2)
            }
        }
    }
}

/// The value and consumed byte count of the varint at the front of
/// `bytes`, or `None` when the buffer is empty.
pub open spec fn spec_parse_varint(bytes: Seq<u8>) -> Option<(u64, int)> {
    if bytes.len() == 0 {
        None
    } else {
        Some(spec_varint_step(bytes, 0, 0))
    }
}

/// The varint at offset `off` of `data`.
pub open spec fn spec_varint_at(data: Seq<u8>, off: int) -> Option<(u64, int)> {
    spec_parse_varint(data.subrange(off, data.len() as int))
}

proof fn lemma_varint_step_bounds(bytes: Seq<u8>, i: int, acc: u64)
    requires
        0 <= i <= 8,
        i < bytes.len(),
    ensures
        i + 1 <= spec_varint_step(bytes, i, acc).1 <= 9,
        spec_varint_step(bytes, i, acc).1 <= bytes.len(),
    decreases 8 - i,
{
    if i < 8 && bytes[i] & 0x80 != 0 && i + 1 < bytes.len() {
        lemma_varint_step_bounds(bytes, i + 1, (acc << 7) | ((bytes[i] & 0x7f) as u64));
    }
}

fn varint_step(data: &[u8], i: usize, acc: u64) -> (r: (u64, usize))
    requires
        i <= 8,
        i < data@.len(),
    ensures
        (r.0, r.1 as int) == spec_varint_step(data@, i as int, acc),
    decreases 8 - i,
{
    let b = data[i];
    if i == 8 {
        ((acc << 8) | (b as u64), 9)
    } else {
        let acc2 = (acc << 7) | ((b & 0x7f) as u64);
        if b & 0x80 == 0 {
            (acc2, i + 1)
        } else if i + 1 >= data.len() {
            (acc2, i + 1)
        } else {
            varint_step(data, i + 1, acc2)
        }
    }
}

/// Decode the varint at the front of `data`: up to nine bytes, seven
/// bits from each of the first eight, all eight bits of the ninth.
/// Only an empty buffer is rejected; a buffer that ends inside a
/// varint yields the bits read so far.
pub fn parse_varint(data: &[u8]) -> (r: Result<(u64, usize), SqliteVizError>)
    ensures
        r is Err <==> data@.len() == 0,
        r matches Err(e) ==> e == SqliteVizError::InvalidVarint,
        r matches Ok(p) ==> {
            &&& spec_parse_varint(data@) == Some((p.0, p.1 as int))
            &&& 1 <= p.1 <= 9
            &&& p.1 <= data@.len()
        },
{
    if data.len() == 0 {
        return Err(SqliteVizError::InvalidVarint);
    }
    proof {
        lemma_varint_step_bounds(data@, 0, 0);
    }
    let (value, consumed) = varint_step(data, 0, 0);
    Ok((value, consumed))
}

/// The unsigned varint bit pattern reinterpreted as a two's-complement
/// signed 64-bit integer.
pub open spec fn spec_signed_of(v: u64) -> i64 {
    v as i64
}

/// Decode a signed varint: the same bytes as [`parse_varint`], with the
/// 64-bit pattern reinterpreted as two's complement.
pub fn parse_signed_varint(data: &[u8]) -> (r: Result<(i64, usize), SqliteVizError>)
    ensures
        r is Err <==> data@.len() == 0,
        r matches Err(e) ==> e == SqliteVizError::InvalidVarint,
        r matches Ok(p) ==> {
            &&& spec_parse_varint(data@) matches Some(q) && p.0 == spec_signed_of(q.0) && p.1
                == q.1
            &&& 1 <= p.1 <= 9
        },
{
    match parse_varint(data) {
        Ok((value, len)) => Ok((value as i64, len)),
        Err(e) => Err(e),
    }
}

/// The number of bytes of the minimal varint encoding of `v`:
/// the least count whose seven-bit groups cover the value, nine
/// when even eight groups do not.
pub open spec fn spec_varint_len(v: u64) -> int {
    if v < 0x80 {
        1
    } else if v < 0x4000 {
        2
    } else if v < 0x200000 {
        3
    } else if v < 0x10000000 {
        4
    } else if v < 0x8_0000_0000 {
        5
    } else if v < 0x400_0000_0000 {
        6
    } else if v < 0x2_0000_0000_0000 {
        7
    } else if v < 0x100_0000_0000_0000 {
        8
    } else {
        9
    }
}

/// The minimal varint encoding of `v`: big-endian seven-bit groups,
/// the high bit set on every byte but the last; a nine-byte encoding
/// carries the low eight bits of `v` whole in its final byte.
pub open spec fn spec_encode_varint(v: u64) -> Seq<u8> {
    if v < 0x80 {
        seq![v as u8]
    } else if v < 0x4000 {
        seq![((v >> 7) | 0x80) as u8, (v & 0x7f) as u8]
    } else if v < 0x200000 {
        seq![((v >> 14) | 0x80) as u8, (((v >> 7) & 0x7f) | 0x80) as u8, (v & 0x7f) as u8]
    } else if v < 0x10000000 {
        seq![
            ((v >> 21) | 0x80) as u8,
            (((v >> 14) & 0x7f) | 0x80) as u8,
            (((v >> 7) & 0x7f) | 0x80) as u8,
            (v & 0x7f) as u8,
        ]
    } else if v < 0x8_0000_0000 {
        seq![
            ((v >> 28) | 0x80) as u8,
            (((v >> 21) & 0x7f) | 0x80) as u8,
            (((v >> 14) & 0x7f) | 0x80) as u8,
            (((v >> 7) & 0x7f) | 0x80) as u8,
            (v & 0x7f) as u8,
        ]
    } else if v < 0x400_0000_0000 {
        seq![
            ((v >> 35) | 0x80) as u8,
            (((v >> 28) & 0x7f) | 0x80) as u8,
            (((v >> 21) & 0x7f) | 0x80) as u8,
            (((v >> 14) & 0x7f) | 0x80) as u8,
            (((v >> 7) & 0x7f) | 0x80) as u8,
            (v & 0x7f) as u8,
        ]
    } else if v < 0x2_0000_0000_0000 {
        seq![
            ((v >> 42) | 0x80) as u8,
            (((v >> 35) & 0x7f) | 0x80) as u8,
            (((v >> 28) & 0x7f) | 0x80) as u8,
            (((v >> 21) & 0x7f) | 0x80) as u8,
            (((v >> 14) & 0x7f) | 0x80) as u8,
            (((v >> 7) & 0x7f) | 0x80) as u8,
            (v & 0x7f) as u8,
        ]
    } else if v < 0x100_0000_0000_0000 {
        seq![
            ((v >> 49) | 0x80) as u8,
            (((v >> 42) & 0x7f) | 0x80) as u8,
            (((v >> 35) & 0x7f) | 0x80) as u8,
            (((v >> 28) & 0x7f) | 0x80) as u8,
            (((v >> 21) & 0x7f) | 0x80) as u8,
            (((v >> 14) & 0x7f) | 0x80) as u8,
            (((v >> 7) & 0x7f) | 0x80) as u8,
            (v & 0x7f) as u8,
        ]
    } else {
        seq![
            (((v >> 57) & 0x7f) | 0x80) as u8,
            (((v >> 50) & 0x7f) | 0x80) as u8,
            (((v >> 43) & 0x7f) | 0x80) as u8,
            (((v >> 36) & 0x7f) | 0x80) as u8,
            (((v >> 29) & 0x7f) | 0x80) as u8,
            (((v >> 22) & 0x7f) | 0x80) as u8,
            (((v >> 15) & 0x7f) | 0x80) as u8,
            (((v >> 8) & 0x7f) | 0x80) as u8,
            (v & 0xff) as u8,
        ]
    }
}

/// Encode `v` as a minimal varint.
pub fn encode_varint(v: u64) -> (r: Vec<u8>)
    ensures
        r@ == spec_encode_varint(v),
        r@.len() == spec_varint_len(v),
{
    let mut out: Vec<u8> = Vec::new();
    if v < 0x80 {
        out.push(v as u8);
    } else if v < 0x4000 {
        out.push(((v >> 7) | 0x80) as u8);
        out.push((v & 0x7f) as u8);
    } else if v < 0x200000 {
        out.push(((v >> 14) | 0x80) as u8);
        out.push((((v >> 7) & 0x7f) | 0x80) as u8);
        out.push((v & 0x7f) as u8);
    } else if v < 0x10000000 {
        out.push(((v >> 21) | 0x80) as u8);
        out.push((((v >> 14) & 0x7f) | 0x80) as u8);
        out.push((((v >> 7) & 0x7f) | 0x80) as u8);
        out.push((v & 0x7f) as u8);
    } else if v < 0x8_0000_0000 {
        out.push(((v >> 28) | 0x80) as u8);
        out.push((((v >> 21) & 0x7f) | 0x80) as u8);
        out.push((((v >> 14) & 0x7f) | 0x80) as u8);
        out.push((((v >> 7) & 0x7f) | 0x80) as u8);
        out.push((v & 0x7f) as u8);
    } else if v < 0x400_0000_0000 {
        out.push(((v >> 35) | 0x80) as u8);
        out.push((((v >> 28) & 0x7f) | 0x80) as u8);
        out.push((((v >> 21) & 0x7f) | 0x80) as u8);
        out.push((((v >> 14) & 0x7f) | 0x80) as u8);
        out.push((((v >> 7) & 0x7f) | 0x80) as u8);
        out.push((v & 0x7f) as u8);
    } else if v < 0x2_0000_0000_0000 {
        out.push(((v >> 42) | 0x80) as u8);
        out.push((((v >> 35) & 0x7f) | 0x80) as u8);
        out.push((((v >> 28) & 0x7f) | 0x80) as u8);
        out.push((((v >> 21) & 0x7f) | 0x80) as u8);
        out.push((((v >> 14) & 0x7f) | 0x80) as u8);
        out.push((((v >> 7) & 0x7f) | 0x80) as u8);
        out.push((v & 0x7f) as u8);
    } else if v < 0x100_0000_0000_0000 {
        out.push(((v >> 49) | 0x80) as u8);
        out.push((((v >> 42) & 0x7f) | 0x80) as u8);
        out.push((((v >> 35) & 0x7f) | 0x80) as u8);
        out.push((((v >> 28) & 0x7f) | 0x80) as u8);
        out.push((((v >> 21) & 0x7f) | 0x80) as u8);
        out.push((((v >> 14) & 0x7f) | 0x80) as u8);
        out.push((((v >> 7) & 0x7f) | 0x80) as u8);
        out.push((v & 0x7f) as u8);
    } else {
        out.push((((v >> 57) & 0x7f) | 0x80) as u8);
        out.push((((v >> 50) & 0x7f) | 0x80) as u8);
        out.push((((v >> 43) & 0x7f) | 0x80) as u8);
        out.push((((v >> 36) & 0x7f) | 0x80) as u8);
        out.push((((v >> 29) & 0x7f) | 0x80) as u8);
        out.push((((v >> 22) & 0x7f) | 0x80) as u8);
        out.push((((v >> 15) & 0x7f) | 0x80) as u8);
        out.push((((v >> 8) & 0x7f) | 0x80) as u8);
        out.push((v & 0xff) as u8);
    }
    proof {
        assert(out@ =~= spec_encode_varint(v));
    }
    out
}


/// Encoding then decoding gives back the value, and the encoding has
/// the minimal length for it.
pub proof fn lemma_varint_round_trip(v: u64)
    ensures
        spec_parse_varint(spec_encode_varint(v)) == Some((v, spec_varint_len(v))),
{
    reveal_with_fuel(spec_varint_step, 10);
    let bytes = spec_encode_varint(v);
    if v < 0x80 {
        let b0 = v as u8;
        assert(bytes =~= seq![b0]);
        assert(b0 & 0x80 == 0 && ((0u64 << 7) | ((b0 & 0x7f) as u64)) == v) by (bit_vector)
            requires
                v < 0x80,
                b0 == v as u8,
        ;
    }
    else if v < 0x4000 {
        let b0 = ((v >> 7) | 0x80) as u8;
        let b1 = (v & 0x7f) as u8;
        assert(bytes =~= seq![b0, b1]);
        assert(b0 & 0x80 != 0 && b1 & 0x80 == 0 && ((((0u64 << 7) | ((b0 & 0x7f) as u64)) << 7) | ((b1 & 0x7f) as u64)) == v) by (bit_vector)
            requires
                0x80 <= v < 0x4000,
                b0 == ((v >> 7) | 0x80) as u8,
                b1 == (v & 0x7f) as u8,
        ;
    }
    else if v < 0x200000 {
        let b0 = ((v >> 14) | 0x80) as u8;
        let b1 = (((v >> 7) & 0x7f) | 0x80) as u8;
        let b2 = (v & 0x7f) as u8;
        assert(bytes =~= seq![b0, b1, b2]);
        assert(b0 & 0x80 != 0 && b1 & 0x80 != 0 && b2 & 0x80 == 0 && ((((((0u64 << 7) | ((b0 & 0x7f) as u64)) << 7) | ((b1 & 0x7f) as u64)) << 7) | ((b2 & 0x7f) as u64)) == v) by (bit_vector)
            requires
                0x4000 <= v < 0x200000,
                b0 == ((v >> 14) | 0x80) as u8,
                b1 == (((v >> 7) & 0x7f) | 0x80) as u8,
                b2 == (v & 0x7f) as u8,
        ;
    }
    else if v < 0x10000000 {
        let b0 = ((v >> 21) | 0x80) as u8;
        let b1 = (((v >> 14) & 0x7f) | 0x80) as u8;
        let b2 = (((v >> 7) & 0x7f) | 0x80) as u8;
        let b3 = (v & 0x7f) as u8;
        assert(bytes =~= seq![b0, b1, b2, b3]);
        assert(b0 & 0x80 != 0 && b1 & 0x80 != 0 && b2 & 0x80 != 0 && b3 & 0x80 == 0 && ((((((((0u64 << 7) | ((b0 & 0x7f) as u64)) << 7) | ((b1 & 0x7f) as u64)) << 7) | ((b2 & 0x7f) as u64)) << 7) | ((b3 & 0x7f) as u64)) == v) by (bit_vector)
            requires
                0x200000 <= v < 0x10000000,
                b0 == ((v >> 21) | 0x80) as u8,
                b1 == (((v >> 14) & 0x7f) | 0x80) as u8,
                b2 == (((v >> 7) & 0x7f) | 0x80) as u8,
                b3 == (v & 0x7f) as u8,
        ;
    }
    else if v < 0x8_0000_0000 {
        let b0 = ((v >> 28) | 0x80) as u8;
        let b1 = (((v >> 21) & 0x7f) | 0x80) as u8;
        let b2 = (((v >> 14) & 0x7f) | 0x80) as u8;
        let b3 = (((v >> 7) & 0x7f) | 0x80) as u8;
        let b4 = (v & 0x7f) as u8;
        assert(bytes =~= seq![b0, b1, b2, b3, b4]);
        assert(b0 & 0x80 != 0 && b1 & 0x80 != 0 && b2 & 0x80 != 0 && b3 & 0x80 != 0 && b4 & 0x80 == 0 && ((((((((((0u64 << 7) | ((b0 & 0x7f) as u64)) << 7) | ((b1 & 0x7f) as u64)) << 7) | ((b2 & 0x7f) as u64)) << 7) | ((b3 & 0x7f) as u64)) << 7) | ((b4 & 0x7f) as u64)) == v) by (bit_vector)
            requires
                0x10000000 <= v < 0x8_0000_0000,
                b0 == ((v >> 28) | 0x80) as u8,
                b1 == (((v >> 21) & 0x7f) | 0x80) as u8,
                b2 == (((v >> 14) & 0x7f) | 0x80) as u8,
                b3 == (((v >> 7) & 0x7f) | 0x80) as u8,
                b4 == (v & 0x7f) as u8,
        ;
    }
    else if v < 0x400_0000_0000 {
        let b0 = ((v >> 35) | 0x80) as u8;
        let b1 = (((v >> 28) & 0x7f) | 0x80) as u8;
        let b2 = (((v >> 21) & 0x7f) | 0x80) as u8;
        let b3 = (((v >> 14) & 0x7f) | 0x80) as u8;
        let b4 = (((v >> 7) & 0x7f) | 0x80) as u8;
        let b5 = (v & 0x7f) as u8;
        assert(bytes =~= seq![b0, b1, b2, b3, b4, b5]);
        assert(b0 & 0x80 != 0 && b1 & 0x80 != 0 && b2 & 0x80 != 0 && b3 & 0x80 != 0 && b4 & 0x80 != 0 && b5 & 0x80 == 0 && ((((((((((((0u64 << 7) | ((b0 & 0x7f) as u64)) << 7) | ((b1 & 0x7f) as u64)) << 7) | ((b2 & 0x7f) as u64)) << 7) | ((b3 & 0x7f) as u64)) << 7) | ((b4 & 0x7f) as u64)) << 7) | ((b5 & 0x7f) as u64)) == v) by (bit_vector)
            requires
                0x8_0000_0000 <= v < 0x400_0000_0000,
                b0 == ((v >> 35) | 0x80) as u8,
                b1 == (((v >> 28) & 0x7f) | 0x80) as u8,
                b2 == (((v >> 21) & 0x7f) | 0x80) as u8,
                b3 == (((v >> 14) & 0x7f) | 0x80) as u8,
                b4 == (((v >> 7) & 0x7f) | 0x80) as u8,
                b5 == (v & 0x7f) as u8,
        ;
    }
    else if v < 0x2_0000_0000_0000 {
        let b0 = ((v >> 42) | 0x80) as u8;
        let b1 = (((v >> 35) & 0x7f) | 0x80) as u8;
        let b2 = (((v >> 28) & 0x7f) | 0x80) as u8;
        let b3 = (((v >> 21) & 0x7f) | 0x80) as u8;
        let b4 = (((v >> 14) & 0x7f) | 0x80) as u8;
        let b5 = (((v >> 7) & 0x7f) | 0x80) as u8;
        let b6 = (v & 0x7f) as u8;
        assert(bytes =~= seq![b0, b1, b2, b3, b4, b5, b6]);
        assert(b0 & 0x80 != 0 && b1 & 0x80 != 0 && b2 & 0x80 != 0 && b3 & 0x80 != 0 && b4 & 0x80 != 0 && b5 & 0x80 != 0 && b6 & 0x80 == 0 && ((((((((((((((0u64 << 7) | ((b0 & 0x7f) as u64)) << 7) | ((b1 & 0x7f) as u64)) << 7) | ((b2 & 0x7f) as u64)) << 7) | ((b3 & 0x7f) as u64)) << 7) | ((b4 & 0x7f) as u64)) << 7) | ((b5 & 0x7f) as u64)) << 7) | ((b6 & 0x7f) as u64)) == v) by (bit_vector)
            requires
                0x400_0000_0000 <= v < 0x2_0000_0000_0000,
                b0 == ((v >> 42) | 0x80) as u8,
                b1 == (((v >> 35) & 0x7f) | 0x80) as u8,
                b2 == (((v >> 28) & 0x7f) | 0x80) as u8,
                b3 == (((v >> 21) & 0x7f) | 0x80) as u8,
                b4 == (((v >> 14) & 0x7f) | 0x80) as u8,
                b5 == (((v >> 7) & 0x7f) | 0x80) as u8,
                b6 == (v & 0x7f) as u8,
        ;
    }
    else if v < 0x100_0000_0000_0000 {
        let b0 = ((v >> 49) | 0x80) as u8;
        let b1 = (((v >> 42) & 0x7f) | 0x80) as u8;
        let b2 = (((v >> 35) & 0x7f) | 0x80) as u8;
        let b3 = (((v >> 28) & 0x7f) | 0x80) as u8;
        let b4 = (((v >> 21) & 0x7f) | 0x80) as u8;
        let b5 = (((v >> 14) & 0x7f) | 0x80) as u8;
        let b6 = (((v >> 7) & 0x7f) | 0x80) as u8;
        let b7 = (v & 0x7f) as u8;
        assert(bytes =~= seq![b0, b1, b2, b3, b4, b5, b6, b7]);
        assert(b0 & 0x80 != 0 && b1 & 0x80 != 0 && b2 & 0x80 != 0 && b3 & 0x80 != 0 && b4 & 0x80 != 0 && b5 & 0x80 != 0 && b6 & 0x80 != 0 && b7 & 0x80 == 0 && ((((((((((((((((0u64 << 7) | ((b0 & 0x7f) as u64)) << 7) | ((b1 & 0x7f) as u64)) << 7) | ((b2 & 0x7f) as u64)) << 7) | ((b3 & 0x7f) as u64)) << 7) | ((b4 & 0x7f) as u64)) << 7) | ((b5 & 0x7f) as u64)) << 7) | ((b6 & 0x7f) as u64)) << 7) | ((b7 & 0x7f) as u64)) == v) by (bit_vector)
            requires
                0x2_0000_0000_0000 <= v < 0x100_0000_0000_0000,
                b0 == ((v >> 49) | 0x80) as u8,
                b1 == (((v >> 42) & 0x7f) | 0x80) as u8,
                b2 == (((v >> 35) & 0x7f) | 0x80) as u8,
                b3 == (((v >> 28) & 0x7f) | 0x80) as u8,
                b4 == (((v >> 21) & 0x7f) | 0x80) as u8,
                b5 == (((v >> 14) & 0x7f) | 0x80) as u8,
                b6 == (((v >> 7) & 0x7f) | 0x80) as u8,
                b7 == (v & 0x7f) as u8,
        ;
    }
    else {
        let b0 = (((v >> 57) & 0x7f) | 0x80) as u8;
        let b1 = (((v >> 50) & 0x7f) | 0x80) as u8;
        let b2 = (((v >> 43) & 0x7f) | 0x80) as u8;
        let b3 = (((v >> 36) & 0x7f) | 0x80) as u8;
        let b4 = (((v >> 29) & 0x7f) | 0x80) as u8;
        let b5 = (((v >> 22) & 0x7f) | 0x80) as u8;
        let b6 = (((v >> 15) & 0x7f) | 0x80) as u8;
        let b7 = (((v >> 8) & 0x7f) | 0x80) as u8;
        let b8 = (v & 0xff) as u8;
        assert(bytes =~= seq![b0, b1, b2, b3, b4, b5, b6, b7, b8]);
        assert(b0 & 0x80 != 0 && b1 & 0x80 != 0 && b2 & 0x80 != 0 && b3 & 0x80 != 0 && b4 & 0x80 != 0 && b5 & 0x80 != 0 && b6 & 0x80 != 0 && b7 & 0x80 != 0 && ((((((((((((((((((0u64 << 7) | ((b0 & 0x7f) as u64)) << 7) | ((b1 & 0x7f) as u64)) << 7) | ((b2 & 0x7f) as u64)) << 7) | ((b3 & 0x7f) as u64)) << 7) | ((b4 & 0x7f) as u64)) << 7) | ((b5 & 0x7f) as u64)) << 7) | ((b6 & 0x7f) as u64)) << 7) | ((b7 & 0x7f) as u64)) << 8) | (b8 as u64)) == v) by (bit_vector)
            requires
                v >= 0x100_0000_0000_0000,
                b0 == (((v >> 57) & 0x7f) | 0x80) as u8,
                b1 == (((v >> 50) & 0x7f) | 0x80) as u8,
                b2 == (((v >> 43) & 0x7f) | 0x80) as u8,
                b3 == (((v >> 36) & 0x7f) | 0x80) as u8,
                b4 == (((v >> 29) & 0x7f) | 0x80) as u8,
                b5 == (((v >> 22) & 0x7f) | 0x80) as u8,
                b6 == (((v >> 15) & 0x7f) | 0x80) as u8,
                b7 == (((v >> 8) & 0x7f) | 0x80) as u8,
                b8 == (v & 0xff) as u8,
        ;
    }
}

/// A nine-byte varint consumes exactly nine bytes, whatever the bit
/// pattern of its final byte: once the first eight bytes all carry the
/// continuation bit, the ninth ends the sequence unconditionally.
pub proof fn lemma_varint_nine_byte_consumption(bytes: Seq<u8>)
    requires
        bytes.len() >= 9,
        forall|i: int| 0 <= i < 8 ==> #[trigger] (bytes[i] & 0x80) != 0,
    ensures
        spec_parse_varint(bytes) matches Some(p) && p.1 == 9,
{
    reveal_with_fuel(spec_varint_step, 10);
}

} // verus!
