//! Byte-emission helpers for the serializer: appending raw bytes, UTF-8
//! text, decimal and lowercase-hexadecimal numerals, and little-endian
//! fixed-width integers to a growing output buffer.

use vstd::prelude::*;
use vstd::string::StringSliceAdditionalSpecFns;

verus! {

/// The ASCII decimal numeral of `n`, most significant digit first, with no
/// leading zeros (`0` itself is the single byte `b'0'`).
pub open spec fn dec_bytes(n: nat) -> Seq<u8>
    decreases n,
{
    if n < 10 {
        seq![(48 + n) as u8]
    } else {
        dec_bytes(n / 10) + seq![(48 + n % 10) as u8]
    }
}

/// The ASCII lowercase hexadecimal numeral of `n`, most significant digit
/// first, with no leading zeros and no `0x` prefix.
pub open spec fn hex_bytes(n: nat) -> Seq<u8>
    decreases n,
{
    if n < 16 {
        seq![hex_digit(n)]
    } else {
        hex_bytes(n / 16) + seq![hex_digit(n % 16)]
    }
}

/// The ASCII byte for the hexadecimal digit `d` (`0`-`9`, then `a`-`f`).
pub open spec fn hex_digit(d: nat) -> u8
    recommends
        d < 16,
{
    if d < 10 {
        (48 + d) as u8
    } else {
        (87 + d) as u8
    }
}

/// The two bytes of `n` in little-endian order.
pub open spec fn le16_bytes(n: u16) -> Seq<u8> {
    seq![(n % 256) as u8, (n / 256) as u8]
}

/// The four bytes of `n` in little-endian order.
pub open spec fn le32_bytes(n: u32) -> Seq<u8> {
    seq![
        (n % 256) as u8,
        (n / 256 % 256) as u8,
        (n / 0x10000 % 256) as u8,
        (n / 0x1000000) as u8,
    ]
}

/// Every byte of a decimal numeral is an ASCII digit.
pub proof fn lemma_dec_bytes_digits(n: nat)
    ensures
        forall|i: int| 0 <= i < dec_bytes(n).len() ==> 48 <= #[trigger] dec_bytes(n)[i] <= 57,
    decreases n,
{
    if n >= 10 {
        lemma_dec_bytes_digits(n / 10);
        let a = dec_bytes(n / 10);
        let b = seq![(48 + n % 10) as u8];
        assert forall|i: int| 0 <= i < dec_bytes(n).len() implies 48 <= #[trigger] dec_bytes(
            n,
        )[i] <= 57 by {
            if i < a.len() {
                assert(dec_bytes(n)[i] == a[i]);
            } else {
                assert(dec_bytes(n)[i] == b[i - a.len()]);
            }
        }
    }
}

/// Every byte of a hexadecimal numeral is an ASCII digit or a lowercase
/// letter `a`-`f`.
pub proof fn lemma_hex_bytes_digits(n: nat)
    ensures
        forall|i: int|
            0 <= i < hex_bytes(n).len() ==> (48 <= #[trigger] hex_bytes(n)[i] <= 57 || 97
                <= hex_bytes(n)[i] <= 102),
    decreases n,
{
    if n >= 16 {
        lemma_hex_bytes_digits(n / 16);
        let a = hex_bytes(n / 16);
        let b = seq![hex_digit(n % 16)];
        assert forall|i: int| 0 <= i < hex_bytes(n).len() implies (48 <= #[trigger] hex_bytes(
            n,
        )[i] <= 57 || 97 <= hex_bytes(n)[i] <= 102) by {
            if i < a.len() {
                assert(hex_bytes(n)[i] == a[i]);
            } else {
                assert(hex_bytes(n)[i] == b[i - a.len()]);
            }
        }
    }
}

/// Append every byte of `bytes` to `out`, in order.
pub fn push_bytes(out: &mut Vec<u8>, bytes: &[u8])
    ensures
        final(out)@ == old(out)@ + bytes@,
{
    let ghost start = out@;
    let mut i: usize = 0;
    while i < bytes.len()
        invariant
            i <= bytes@.len(),
            out@ == start + bytes@.subrange(0, i as int),
        decreases bytes@.len() - i,
    {
        out.push(bytes[i]);
        i = i + 1;
        proof {
            assert(bytes@.subrange(0, i as int)
                == bytes@.subrange(0, i - 1) + seq![bytes@[i - 1]]);
        }
    }
    proof {
        assert(bytes@.subrange(0, bytes@.len() as int) == bytes@);
    }
}

/// Append the UTF-8 bytes of `s` to `out`.
pub fn push_str(out: &mut Vec<u8>, s: &str)
    ensures
        final(out)@ == old(out)@ + s.spec_bytes(),
{
    push_bytes(out, s.as_bytes());
}

/// Append the decimal numeral of `n` to `out`.
pub fn push_dec(out: &mut Vec<u8>, n: u64)
    ensures
        final(out)@ == old(out)@ + dec_bytes(n as nat),
    decreases n,
{
    if n >= 10 {
        push_dec(out, n / 10);
    }
    out.push((n % 10) as u8 + 48);
}

/// Append the lowercase hexadecimal numeral of `n` to `out`.
pub fn push_hex(out: &mut Vec<u8>, n: u64)
    ensures
        final(out)@ == old(out)@ + hex_bytes(n as nat),
    decreases n,
{
    if n >= 16 {
        push_hex(out, n / 16);
    }
    let d = (n % 16) as u8;
    if d < 10 {
        out.push(d + 48);
    } else {
        out.push(d + 87);
    }
}

/// Append the two little-endian bytes of `n` to `out`.
pub fn push_le16(out: &mut Vec<u8>, n: u16)
    ensures
        final(out)@ == old(out)@ + le16_bytes(n),
{
    out.push((n % 256) as u8);
    out.push((n / 256) as u8);
}

/// Append the four little-endian bytes of `n` to `out`.
pub fn push_le32(out: &mut Vec<u8>, n: u32)
    ensures
        final(out)@ == old(out)@ + le32_bytes(n),
{
    out.push((n % 256) as u8);
    out.push((n / 256 % 256) as u8);
    out.push((n / 0x10000 % 256) as u8);
    out.push((n / 0x1000000) as u8);
}

} // verus!
