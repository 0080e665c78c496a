use vstd::prelude::*;

verus! {

/// The sequence of characters that lossy UTF-8 decoding produces from
/// a byte sequence: well-formed sequences decode to their characters,
/// ill-formed ones are replaced, and the result depends on the bytes
/// alone.
pub uninterp spec fn utf8_lossy_of(bytes: Seq<u8>) -> Seq<char>;

/// Relies on `String::from_utf8_lossy`: the result is a pure function
/// of the bytes; ASCII bytes decode to themselves (each byte below
/// 0x80 is its own character); an empty input stays empty.
#[verifier::external_body]
pub fn decode_text(bytes: &[u8]) -> (r: String)
    ensures
        r@ == utf8_lossy_of(bytes@),
        (forall|i: int| 0 <= i < bytes@.len() ==> bytes@[i] < 0x80) ==> r@ == bytes@.map_values(
            |b: u8| b as char,
        ),
        bytes@.len() == 0 ==> r@.len() == 0,
{
    String::from_utf8_lossy(bytes).into_owned()
}

/// ASCII lower-casing of one character: upper-case letters move down
/// by 32, everything else is unchanged.
pub open spec fn spec_ascii_lower_char(c: char) -> char {
    if 'A' <= c && c <= 'Z' {
        ((c as u8) + 32) as char
    } else {
        c
    }
}

/// A character sequence mapped to ASCII lower case.
pub open spec fn spec_ascii_lower(s: Seq<char>) -> Seq<char> {
    s.map_values(|c: char| spec_ascii_lower_char(c))
}

/// Relies on `str::eq_ignore_ascii_case`: true exactly when the two
/// strings agree after ASCII lower-casing, character for character.
#[verifier::external_body]
pub fn str_eq_ignore_ascii_case(a: &str, b: &str) -> (r: bool)
    ensures
        r == (spec_ascii_lower(a@) == spec_ascii_lower(b@)),
{
    a.eq_ignore_ascii_case(b)
}

/// The ASCII bytes of the decimal representation of `n`, most
/// significant digit first, with no leading zeros (a single `0` for
/// zero).
pub open spec fn spec_decimal_bytes(n: int) -> Seq<u8>
    decreases n,
{
    if n < 10 {
        seq![(0x30 + (if n < 0 { 0int } else { n % 10 })) as u8]
    } else {
        spec_decimal_bytes(n / 10).push((0x30 + n % 10) as u8)
    }
}

/// The characters of the decimal representation of `n`.
pub open spec fn spec_decimal_chars(n: int) -> Seq<char> {
    spec_decimal_bytes(n).map_values(|b: u8| b as char)
}

pub proof fn lemma_decimal_bytes_ascii(n: int)
    ensures
        forall|i: int| 0 <= i < spec_decimal_bytes(n).len() ==> #[trigger] spec_decimal_bytes(
            n,
        )[i] < 0x80,
    decreases n,
{
    if n >= 10 {
        lemma_decimal_bytes_ascii(n / 10);
        let prefix = spec_decimal_bytes(n / 10);
        let whole = spec_decimal_bytes(n);
        assert forall|i: int| 0 <= i < whole.len() implies #[trigger] whole[i] < 0x80 by {
            if i < prefix.len() {
                assert(whole[i] == prefix[i]);
            } else {
                assert(whole[i] == (0x30 + n % 10) as u8);
            }
        }
    }
}

/// Append the decimal digits of `n` to `out`.
pub fn push_decimal(n: u32, out: &mut Vec<u8>)
    ensures
        final(out)@ == old(out)@ + spec_decimal_bytes(n as int),
    decreases n,
{
    if n >= 10 {
        push_decimal(n / 10, out);
    }
    out.push(0x30 + (n % 10) as u8);
    proof {
        assert(out@ =~= old(out)@ + spec_decimal_bytes(n as int));
    }
}

} // verus!
