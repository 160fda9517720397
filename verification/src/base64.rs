//! Lenient base64 decoding, as Node's `Buffer.from(input, "base64")` does
//! it: both the standard and the URL-safe alphabets, every other byte
//! (padding included) skipped.

use vstd::prelude::*;

use vstd::string::StringSliceAdditionalSpecFns;

use crate::hex::{spec_utf8_lossy, utf8_lossy};

verus! {

/// The 6-bit value of a base64 digit of either alphabet.
pub open spec fn sextet(b: u8) -> Option<u8> {
    if 65 <= b <= 90 {
        Some((b - 65) as u8)
    } else if 97 <= b <= 122 {
        Some((b - 97 + 26) as u8)
    } else if 48 <= b <= 57 {
        Some((b - 48 + 52) as u8)
    } else if b == 43 || b == 45 {
        Some(62u8)
    } else if b == 47 || b == 95 {
        Some(63u8)
    } else {
        None
    }
}

/// The values of the base64 digits of `bytes`, in order; other bytes are
/// skipped.
pub open spec fn sextets(bytes: Seq<u8>) -> Seq<u8>
    decreases bytes.len(),
{
    if bytes.len() == 0 {
        Seq::empty()
    } else {
        let rest = sextets(bytes.drop_last());
        match sextet(bytes.last()) {
            Some(v) => rest.push(v),
            None => rest,
        }
    }
}

/// The bytes that a sequence of 6-bit values spells: in each group of four
/// values, the second, third and fourth each complete one byte with the
/// bits the one before it left over.
pub open spec fn decode_sextets(sx: Seq<u8>) -> Seq<u8>
    decreases sx.len(),
{
    if sx.len() == 0 {
        Seq::empty()
    } else {
        let prev = decode_sextets(sx.drop_last());
        let n = sx.len();
        let s = sx.last() as int;
        let before = if n >= 2 {
            sx[n - 2] as int
        } else {
            0
        };
        if (n - 1) % 4 == 1 {
            prev.push((before * 4 + s / 16) as u8)
        } else if (n - 1) % 4 == 2 {
            prev.push(((before % 16) * 16 + s / 4) as u8)
        } else if (n - 1) % 4 == 3 {
            prev.push(((before % 4) * 64 + s) as u8)
        } else {
            prev
        }
    }
}

/// The bits a decoder holds after `n` values: 0, 6, 4 or 2.
pub open spec fn pending_bits(n: nat) -> u32 {
    if n % 4 == 1 {
        6
    } else if n % 4 == 2 {
        4
    } else if n % 4 == 3 {
        2
    } else {
        0
    }
}

proof fn lemma_phase_one(buffer: u32, s: u32)
    requires
        s < 64,
    ensures
        ((buffer << 6u32) | s) & 63u32 == s,
{
    assert(((buffer << 6u32) | s) & 63u32 == s) by (bit_vector)
        requires
            s < 64u32,
    ;
}

proof fn lemma_phase_two(buffer: u32, s: u32, before: u32)
    requires
        s < 64,
        before < 64,
        buffer & 63u32 == before,
    ensures
        (((buffer << 6u32) | s) >> 4u32) as u8 == (before * 4 + s / 16) as u8,
        ((buffer << 6u32) | s) & 15u32 == s % 16,
{
    assert((((buffer << 6u32) | s) >> 4u32) as u8 == (before * 4 + s / 16) as u8 && ((buffer
        << 6u32) | s) & 15u32 == s % 16) by (bit_vector)
        requires
            s < 64u32,
            before < 64u32,
            buffer & 63u32 == before,
    ;
}

proof fn lemma_phase_three(buffer: u32, s: u32, before: u32)
    requires
        s < 64,
        before < 64,
        buffer & 15u32 == before % 16,
    ensures
        (((buffer << 6u32) | s) >> 2u32) as u8 == ((before % 16) * 16 + s / 4) as u8,
        ((buffer << 6u32) | s) & 3u32 == s % 4,
{
    assert((((buffer << 6u32) | s) >> 2u32) as u8 == ((before % 16) * 16 + s / 4) as u8 && ((
    buffer << 6u32) | s) & 3u32 == s % 4) by (bit_vector)
        requires
            s < 64u32,
            before < 64u32,
            buffer & 15u32 == before % 16,
    ;
}

proof fn lemma_phase_four(buffer: u32, s: u32, before: u32)
    requires
        s < 64,
        before < 64,
        buffer & 3u32 == before % 4,
    ensures
        (((buffer << 6u32) | s) >> 0u32) as u8 == ((before % 4) * 64 + s) as u8,
{
    assert((((buffer << 6u32) | s) >> 0u32) as u8 == ((before % 4) * 64 + s) as u8) by (bit_vector)
        requires
            s < 64u32,
            before < 64u32,
            buffer & 3u32 == before % 4,
    ;
}

/// The 6-bit value of a base64 digit of either alphabet.
fn sextet_of(ch: u8) -> (r: Option<u8>)
    ensures
        r == sextet(ch),
{
    if 65 <= ch && ch <= 90 {
        Some(ch - 65)
    } else if 97 <= ch && ch <= 122 {
        Some(ch - 97 + 26)
    } else if 48 <= ch && ch <= 57 {
        Some(ch - 48 + 52)
    } else if ch == 43 || ch == 45 {
        Some(62)
    } else if ch == 47 || ch == 95 {
        Some(63)
    } else {
        None
    }
}

/// The bytes that the base64 digits of `input` spell.
pub fn base64_decode_bytes(input: &[u8]) -> (r: Vec<u8>)
    ensures
        r@ == decode_sextets(sextets(input@)),
{
    let mut bytes: Vec<u8> = Vec::new();
    let mut buffer: u32 = 0;
    let mut bits: u32 = 0;
    let mut i: usize = 0;
    let ghost mut sx: Seq<u8> = Seq::empty();
    while i < input.len()
        invariant
            0 <= i <= input@.len(),
            sx == sextets(input@.take(i as int)),
            forall|k: int| 0 <= k < sx.len() ==> sx[k] < 64,
            bytes@ == decode_sextets(sx),
            bits == pending_bits(sx.len()),
            sx.len() % 4 == 1 ==> buffer & 63u32 == sx.last() as u32,
            sx.len() % 4 == 2 ==> buffer & 15u32 == (sx.last() % 16) as u32,
            sx.len() % 4 == 3 ==> buffer & 3u32 == (sx.last() % 4) as u32,
        decreases input.len() - i,
    {
        proof {
            assert(input@.take(i + 1).drop_last() =~= input@.take(i as int));
            assert(input@.take(i + 1).last() == input@[i as int]);
        }
        match sextet_of(input[i]) {
            None => {},
            Some(v) => {
                let s: u32 = v as u32;
                let ghost before: u32 = if sx.len() >= 1 {
                    sx.last() as u32
                } else {
                    0
                };
                let ghost old_sx = sx;
                let ghost old_buffer = buffer;
                proof {
                    sx = sx.push(v);
                    assert(sx.drop_last() =~= old_sx);
                    assert(sx.len() >= 2 ==> sx[sx.len() - 2] == old_sx.last());
                }
                buffer = (buffer << 6u32) | s;
                bits = bits + 6;
                if bits >= 8 {
                    bits = bits - 8;
                    proof {
                        if old_sx.len() % 4 == 1 {
                            lemma_phase_two(old_buffer, s, before);
                        } else if old_sx.len() % 4 == 2 {
                            lemma_phase_three(old_buffer, s, before);
                        } else {
                            lemma_phase_four(old_buffer, s, before);
                        }
                    }
                    bytes.push((buffer >> bits) as u8);
                } else {
                    proof {
                        lemma_phase_one(old_buffer, s);
                    }
                }
            },
        }
        i = i + 1;
    }
    proof {
        assert(input@.take(input@.len() as int) =~= input@);
    }
    bytes
}

/// The text that the base64 digits of `input` spell, each invalid UTF-8
/// sequence becoming U+FFFD.
pub fn base64_decode_to_string(input: &str) -> (r: String)
    ensures
        r@ == spec_utf8_lossy(decode_sextets(sextets(input.spec_bytes()))),
{
    let bytes = base64_decode_bytes(input.as_bytes());
    utf8_lossy(bytes.as_slice())
}

/// The 6-bit values that base64 writes for `bytes`: four for each three
/// bytes, then two for one byte left, three for two (padding aside).
pub open spec fn encode_sextets(b: Seq<u8>) -> Seq<u8>
    decreases b.len(),
{
    if b.len() == 0 {
        Seq::empty()
    } else if b.len() == 1 {
        seq![(b[0] / 4) as u8, ((b[0] % 4) * 16) as u8]
    } else if b.len() == 2 {
        seq![(b[0] / 4) as u8, ((b[0] % 4) * 16 + b[1] / 16) as u8, ((b[1] % 16) * 4) as u8]
    } else {
        seq![
            (b[0] / 4) as u8,
            ((b[0] % 4) * 16 + b[1] / 16) as u8,
            ((b[1] % 16) * 4 + b[2] / 64) as u8,
            (b[2] % 64) as u8,
        ] + encode_sextets(b.skip(3))
    }
}

/// Decoding goes group by group: after whole groups of four, what follows
/// decodes on its own.
proof fn lemma_decode_concat(p: Seq<u8>, q: Seq<u8>)
    requires
        p.len() % 4 == 0,
    ensures
        decode_sextets(p + q) == decode_sextets(p) + decode_sextets(q),
    decreases q.len(),
{
    if q.len() == 0 {
        assert(p + q =~= p);
        assert(decode_sextets(p) + Seq::<u8>::empty() =~= decode_sextets(p));
    } else {
        lemma_decode_concat(p, q.drop_last());
        assert((p + q).drop_last() =~= p + q.drop_last());
        assert((p + q).last() == q.last());
        let n = (p + q).len();
        if q.len() >= 2 {
            assert((p + q)[n - 2] == q[q.len() - 2]);
        }
        assert((n - 1) % 4 == (q.len() - 1) % 4);
        let dp = decode_sextets(p);
        let dq0 = decode_sextets(q.drop_last());
        assert(forall|x: u8| (dp + dq0).push(x) =~= dp + dq0.push(x));
    }
}

proof fn lemma_byte_parts(a: u8, b: u8, c: u8)
    ensures
        (a / 4) as int * 4 + ((a % 4) * 16 + b / 16) as int / 16 == a,
        (((a % 4) * 16 + b / 16) as int % 16) * 16 + ((b % 16) * 4 + c / 64) as int / 4 == b,
        ((((b % 16) * 4 + c / 64) as int) % 4) * 64 + (c % 64) as int == c,
        (a / 4) as int * 4 + ((a % 4) * 16) as int / 16 == a,
        (((a % 4) * 16 + b / 16) as int % 16) * 16 + ((b % 16) * 4) as int / 4 == b,
{
    assert((a / 4) as int * 4 + ((a % 4) * 16 + b / 16) as int / 16 == a) by (nonlinear_arith);
    assert((((a % 4) * 16 + b / 16) as int % 16) * 16 + ((b % 16) * 4 + c / 64) as int / 4 == b) by (nonlinear_arith);
    assert(((((b % 16) * 4 + c / 64) as int) % 4) * 64 + (c % 64) as int == c) by (nonlinear_arith);
    assert((a / 4) as int * 4 + ((a % 4) * 16) as int / 16 == a) by (nonlinear_arith);
    assert((((a % 4) * 16 + b / 16) as int % 16) * 16 + ((b % 16) * 4) as int / 4 == b) by (nonlinear_arith);
}

/// Decoding the 6-bit values that base64 writes for some bytes gives the
/// bytes back.
pub proof fn lemma_base64_roundtrip(b: Seq<u8>)
    ensures
        decode_sextets(encode_sextets(b)) == b,
    decreases b.len(),
{
    let e = encode_sextets(b);
    if b.len() == 0 {
    } else if b.len() <= 3 {
        let a0 = b[0];
        let a1 = if b.len() >= 2 { b[1] } else { 0u8 };
        let a2 = if b.len() >= 3 { b[2] } else { 0u8 };
        lemma_byte_parts(a0, a1, a2);
        let full = seq![
            (a0 / 4) as u8,
            ((a0 % 4) * 16 + a1 / 16) as u8,
            ((a1 % 16) * 4 + a2 / 64) as u8,
            (a2 % 64) as u8,
        ];
        if b.len() == 3 {
            assert(b.skip(3) =~= Seq::<u8>::empty());
            assert(encode_sextets(b.skip(3)) == Seq::<u8>::empty());
            assert(e == full + encode_sextets(b.skip(3)));
            assert(e =~= full + Seq::<u8>::empty());
            assert(e =~= full);
        }
        let s1 = e.take(1);
        let s2 = e.take(2);
        let s3 = e.take(3);
        assert(s2.drop_last() =~= s1);
        assert(e.len() >= 2);
        assert(s1.len() == 1);
        assert(s1.drop_last() =~= Seq::<u8>::empty());
        assert(decode_sextets(Seq::<u8>::empty()) == Seq::<u8>::empty());
        assert(decode_sextets(s1) == Seq::<u8>::empty());
        if e.len() == 2 {
            assert(e.drop_last() =~= s1);
            assert(decode_sextets(e) =~= b);
        } else {
            assert(e.take(2) =~= s2);
            assert(decode_sextets(s2) == seq![a0]);
            assert(s3.drop_last() =~= s2);
            if e.len() == 3 {
                assert(e.drop_last() =~= s2);
                assert(decode_sextets(e) =~= b);
            } else {
                assert(decode_sextets(s3) =~= seq![a0, a1]);
                assert(e.drop_last() =~= s3);
                assert(decode_sextets(e) =~= b);
            }
        }
    } else {
        let rest = b.skip(3);
        lemma_base64_roundtrip(b.take(3));
        lemma_base64_roundtrip(rest);
        let head = encode_sextets(b.take(3));
        assert(b.take(3).skip(3) =~= Seq::<u8>::empty());
        assert(b.take(3)[0] == b[0] && b.take(3)[1] == b[1] && b.take(3)[2] == b[2]);
        let t = b.take(3);
        let full = seq![
            (t[0] / 4) as u8,
            ((t[0] % 4) * 16 + t[1] / 16) as u8,
            ((t[1] % 16) * 4 + t[2] / 64) as u8,
            (t[2] % 64) as u8,
        ];
        assert(encode_sextets(Seq::<u8>::empty()) == Seq::<u8>::empty());
        assert(head == full + encode_sextets(t.skip(3)));
        assert(head =~= full);
        assert(e == full + encode_sextets(rest));
        lemma_decode_concat(head, encode_sextets(rest));
        assert(b.take(3) + rest =~= b);
    }
}

/// The digit base64 writes for a 6-bit value: the standard alphabet, or
/// the URL-safe one (`-` and `_` for 62 and 63).
pub open spec fn digit(v: u8, url_safe: bool) -> u8 {
    if v < 26 {
        (65 + v) as u8
    } else if v < 52 {
        (97 + v - 26) as u8
    } else if v < 62 {
        (48 + v - 52) as u8
    } else if v == 62 {
        if url_safe {
            45u8
        } else {
            43u8
        }
    } else if url_safe {
        95u8
    } else {
        47u8
    }
}

/// The base64 text of some bytes: their digits in either alphabet, then
/// `pad` (`=` signs or nothing).
pub open spec fn encode_text(b: Seq<u8>, url_safe: bool, pad: nat) -> Seq<u8> {
    encode_sextets(b).map_values(|v: u8| digit(v, url_safe)) + Seq::new(pad, |i: int| 61u8)
}

proof fn lemma_encode_small(b: Seq<u8>)
    ensures
        forall|k: int| 0 <= k < encode_sextets(b).len() ==> #[trigger] encode_sextets(b)[k] < 64,
    decreases b.len(),
{
    if b.len() >= 3 {
        lemma_encode_small(b.skip(3));
        let head = seq![
            (b[0] / 4) as u8,
            ((b[0] % 4) * 16 + b[1] / 16) as u8,
            ((b[1] % 16) * 4 + b[2] / 64) as u8,
            (b[2] % 64) as u8,
        ];
        assert(encode_sextets(b) == head + encode_sextets(b.skip(3)));
        assert forall|k: int| 0 <= k < encode_sextets(b).len() implies #[trigger] encode_sextets(b)[k] < 64 by {
            if k >= 4 {
                assert(encode_sextets(b)[k] == encode_sextets(b.skip(3))[k - 4]);
            }
        }
    }
}

proof fn lemma_sextets_of_digits(sx: Seq<u8>, url_safe: bool)
    requires
        forall|k: int| 0 <= k < sx.len() ==> #[trigger] sx[k] < 64,
    ensures
        sextets(sx.map_values(|v: u8| digit(v, url_safe))) == sx,
    decreases sx.len(),
{
    if sx.len() > 0 {
        let init = sx.drop_last();
        assert forall|k: int| 0 <= k < init.len() implies #[trigger] init[k] < 64 by {
            assert(init[k] == sx[k]);
        }
        lemma_sextets_of_digits(init, url_safe);
        let d = sx.map_values(|v: u8| digit(v, url_safe));
        assert(d.drop_last() =~= init.map_values(|v: u8| digit(v, url_safe)));
        assert(sx[sx.len() - 1] < 64);
        assert(sextet(digit(sx.last(), url_safe)) == Some(sx.last()));
        assert(init.push(sx.last()) =~= sx);
    }
}

proof fn lemma_sextets_skip_padding(s: Seq<u8>, pad: nat)
    ensures
        sextets(s + Seq::new(pad, |i: int| 61u8)) == sextets(s),
    decreases pad,
{
    let p = Seq::new(pad, |i: int| 61u8);
    if pad == 0 {
        assert(s + p =~= s);
    } else {
        lemma_sextets_skip_padding(s, (pad - 1) as nat);
        assert((s + p).drop_last() =~= s + Seq::new((pad - 1) as nat, |i: int| 61u8));
        assert((s + p).last() == 61u8);
    }
}

/// Decoding the base64 text of some bytes, in either alphabet, padded or
/// not, gives the bytes back.
pub proof fn lemma_base64_text_roundtrip(b: Seq<u8>, url_safe: bool, pad: nat)
    ensures
        decode_sextets(sextets(encode_text(b, url_safe, pad))) == b,
{
    let sx = encode_sextets(b);
    lemma_encode_small(b);
    lemma_sextets_skip_padding(sx.map_values(|v: u8| digit(v, url_safe)), pad);
    lemma_sextets_of_digits(sx, url_safe);
    lemma_base64_roundtrip(b);
}

} // verus!
