//! Mathematical model of the primitive wire encodings: the variable-length
//! remaining-length integer, big-endian 16-bit integers, and length-prefixed
//! byte strings.

use vstd::arithmetic::div_mod::lemma_fundamental_div_mod;
use vstd::prelude::*;

use crate::errors::DecodingError;

verus! {

/// Bytes of the remaining-length encoding of `n`: seven value bits per byte,
/// least significant group first, high bit set on every byte but the last.
pub open spec fn enc_varint(n: int) -> Seq<u8>
    decreases n,
{
    if n < 128 {
        seq![n as u8]
    } else {
        seq![((n % 128) + 128) as u8] + enc_varint(n / 128)
    }
}

/// How many bytes `enc_varint(n)` takes, stated directly by value range.
pub open spec fn varint_len(n: int) -> int {
    if n < 128 {
        1
    } else if n < 16384 {
        2
    } else if n < 2097152 {
        3
    } else {
        4
    }
}

/// Reads a remaining-length integer from the front of `b`; `depth` bytes of
/// the field were already consumed. Yields the value and the bytes consumed.
pub open spec fn dec_varint_rec(b: Seq<u8>, depth: int) -> Result<(int, int), DecodingError>
    decreases 3 - depth,
{
    if b.len() == 0 {
        Err(DecodingError::MalformedVarint)
    } else if b[0] < 128 {
        Ok((b[0] as int, 1))
    } else if depth >= 3 {
        Err(DecodingError::MalformedVarint)
    } else {
        match dec_varint_rec(b.skip(1), depth + 1) {
            Ok((v, c)) => Ok(((b[0] as int - 128) + 128 * v, c + 1)),
            Err(e) => Err(e),
        }
    }
}

/// Reads a remaining-length integer from the front of `b`.
pub open spec fn dec_varint(b: Seq<u8>) -> Result<(int, int), DecodingError> {
    dec_varint_rec(b, 0)
}

/// The remaining-length encoding of any admissible value takes exactly
/// `varint_len` bytes: 1 below 128, 2 below 16384, 3 below 2097152, 4 up to
/// the maximum.
pub proof fn lemma_enc_varint_len(n: int)
    requires
        0 <= n <= 268435455,
    ensures
        enc_varint(n).len() == varint_len(n),
    decreases n,
{
    if n >= 128 {
        assert(128 <= n / 128 <==> 16384 <= n) by (nonlinear_arith);
        assert(16384 <= n / 128 <==> 2097152 <= n) by (nonlinear_arith);
        assert(n / 128 <= 2097151) by (nonlinear_arith)
            requires
                n <= 268435455,
        ;
        assert(n / 128 >= 1) by (nonlinear_arith)
            requires
                n >= 128,
        ;
        lemma_enc_varint_len(n / 128);
    }
}

/// Decoding undoes encoding for the remaining-length field, with any suffix
/// left untouched; `depth` already-consumed bytes shrink the admissible range
/// by seven bits each.
pub proof fn lemma_dec_enc_varint(n: int, rest: Seq<u8>, depth: int)
    requires
        0 <= n,
        0 <= depth <= 3,
        n < (if depth == 0 {
            268435456int
        } else if depth == 1 {
            2097152int
        } else if depth == 2 {
            16384int
        } else {
            128int
        }),
    ensures
        dec_varint_rec(enc_varint(n) + rest, depth) == Ok::<(int, int), DecodingError>(
            (n, enc_varint(n).len() as int),
        ),
    decreases n,
{
    let e = enc_varint(n);
    if n < 128 {
        assert(e + rest =~= seq![n as u8] + rest);
        assert((e + rest)[0] == n as u8);
    } else {
        let first = ((n % 128) + 128) as u8;
        assert(n % 128 < 128 && n % 128 >= 0);
        assert(first as int == n % 128 + 128);
        assert((e + rest)[0] == first);
        assert(depth < 3);
        assert(n / 128 >= 1) by (nonlinear_arith)
            requires
                n >= 128,
        ;
        assert(n / 128 < 2097152) by (nonlinear_arith)
            requires
                0 <= n < 268435456,
        ;
        assert(n / 128 < 16384 || depth != 1) by (nonlinear_arith)
            requires
                0 <= n,
                depth == 1 ==> n < 2097152,
        ;
        assert(n / 128 < 128 || depth != 2) by (nonlinear_arith)
            requires
                0 <= n,
                depth == 2 ==> n < 16384,
        ;
        assert((e + rest).skip(1) =~= enc_varint(n / 128) + rest);
        lemma_dec_enc_varint(n / 128, rest, depth + 1);
        lemma_fundamental_div_mod(n, 128);
        assert(e.len() == 1 + enc_varint(n / 128).len());
    }
}

/// Bytes of a big-endian 16-bit integer.
pub open spec fn enc_u16(v: u16) -> Seq<u8> {
    seq![(v as int / 256) as u8, (v as int % 256) as u8]
}

/// Reads a big-endian 16-bit integer from the front of `b`.
pub open spec fn dec_u16(b: Seq<u8>) -> Result<(u16, int), DecodingError> {
    if b.len() < 2 {
        Err(DecodingError::UnexpectedEof)
    } else {
        Ok((((b[0] as int) * 256 + (b[1] as int)) as u16, 2))
    }
}

/// Decoding undoes encoding for 16-bit integers, with any suffix untouched.
pub proof fn lemma_dec_enc_u16(v: u16, rest: Seq<u8>)
    ensures
        dec_u16(enc_u16(v) + rest) == Ok::<(u16, int), DecodingError>((v, 2)),
{
    let b = enc_u16(v) + rest;
    lemma_fundamental_div_mod(v as int, 256);
    assert(v as int / 256 < 256) by (nonlinear_arith)
        requires
            v < 65536,
            v >= 0,
    ;
    assert((b[0] as int) * 256 + (b[1] as int) == v as int);
}

/// Bytes of a length-prefixed string or blob: a big-endian 16-bit byte count
/// followed by the bytes themselves. Faithful only while the count fits.
pub open spec fn enc_lp(data: Seq<u8>) -> Seq<u8> {
    enc_u16(data.len() as u16) + data
}

/// Reads a length-prefixed string or blob from the front of `b`. Yields the
/// bytes and the total consumed, prefix included.
pub open spec fn dec_lp(b: Seq<u8>) -> Result<(Seq<u8>, int), DecodingError> {
    if b.len() < 2 {
        Err(DecodingError::UnexpectedEof)
    } else {
        let l = (b[0] as int) * 256 + (b[1] as int);
        if b.len() < 2 + l {
            Err(DecodingError::UnexpectedEof)
        } else {
            Ok((b.subrange(2, 2 + l), 2 + l))
        }
    }
}

/// Decoding undoes encoding for length-prefixed byte strings, with any
/// suffix untouched.
pub proof fn lemma_dec_enc_lp(data: Seq<u8>, rest: Seq<u8>)
    requires
        data.len() <= 65535,
    ensures
        dec_lp(enc_lp(data) + rest) == Ok::<(Seq<u8>, int), DecodingError>(
            (data, 2 + data.len() as int),
        ),
{
    let b = enc_lp(data) + rest;
    let v = data.len() as u16;
    lemma_fundamental_div_mod(v as int, 256);
    assert(v as int / 256 < 256) by (nonlinear_arith)
        requires
            v < 65536,
            v >= 0,
    ;
    assert((b[0] as int) * 256 + (b[1] as int) == data.len() as int);
    assert(b.subrange(2, 2 + data.len() as int) =~= data);
}

} // verus!
