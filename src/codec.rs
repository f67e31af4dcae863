//! Wire encoding of audio samples.
//!
//! A sample is held as the bit pattern of a 32-bit IEEE float; on the wire it
//! travels as four little-endian bytes, with no header and no padding.
use vstd::prelude::*;

verus! {

/// The little-endian byte image of one sample.
pub open spec fn le_bytes(s: u32) -> Seq<u8> {
    seq![
        (s & 0xff) as u8,
        ((s >> 8u32) & 0xff) as u8,
        ((s >> 16u32) & 0xff) as u8,
        ((s >> 24u32) & 0xff) as u8,
    ]
}

/// The sample whose little-endian image is `b0 b1 b2 b3`.
pub open spec fn le_value(b0: u8, b1: u8, b2: u8, b3: u8) -> u32 {
    (b0 as u32) | ((b1 as u32) << 8u32) | ((b2 as u32) << 16u32) | ((b3 as u32) << 24u32)
}

/// The samples carried by a payload: one per whole group of four bytes, in
/// order; a trailing group of fewer than four bytes carries none.
pub open spec fn decode(b: Seq<u8>) -> Seq<u32> {
    Seq::new(
        b.len() / 4,
        |i: int| le_value(b[4 * i], b[4 * i + 1], b[4 * i + 2], b[4 * i + 3]),
    )
}

/// The payload that carries the samples `s`: their little-endian images, in order.
pub open spec fn encode(s: Seq<u32>) -> Seq<u8> {
    Seq::new(4 * s.len(), |j: int| le_bytes(s[j / 4])[j % 4])
}

proof fn lemma_le_value_of_bytes(s: u32)
    ensures
        le_value(le_bytes(s)[0], le_bytes(s)[1], le_bytes(s)[2], le_bytes(s)[3]) == s,
{
    assert(((s & 0xff) as u8 as u32) | ((((s >> 8u32) & 0xff) as u8 as u32) << 8u32) | ((((s
        >> 16u32) & 0xff) as u8 as u32) << 16u32) | ((((s >> 24u32) & 0xff) as u8 as u32)
        << 24u32) == s) by (bit_vector);
}

proof fn lemma_group_index(i: int, k: int)
    requires
        0 <= k < 4,
    ensures
        (4 * i + k) / 4 == i,
        (4 * i + k) % 4 == k,
{
    assert((4 * i + k) / 4 == i && (4 * i + k) % 4 == k) by (nonlinear_arith)
        requires
            0 <= k < 4,
    ;
}

/// Decoding what encoding produced gives back the samples.
pub proof fn lemma_decode_encode(s: Seq<u32>)
    ensures
        decode(encode(s)) == s,
{
    let e = encode(s);
    assert(e.len() / 4 == s.len()) by (nonlinear_arith)
        requires
            e.len() == 4 * s.len(),
    ;
    assert forall|i: int| 0 <= i < s.len() implies #[trigger] decode(e)[i] == s[i] by {
        lemma_group_index(i, 0);
        lemma_group_index(i, 1);
        lemma_group_index(i, 2);
        lemma_group_index(i, 3);
        assert(e[4 * i] == le_bytes(s[i])[0]);
        assert(e[4 * i + 1] == le_bytes(s[i])[1]);
        assert(e[4 * i + 2] == le_bytes(s[i])[2]);
        assert(e[4 * i + 3] == le_bytes(s[i])[3]);
        lemma_le_value_of_bytes(s[i]);
    }
    assert(decode(e) =~= s);
}

/// Decoding two payloads one after the other gives the samples of their
/// concatenation, when the first holds whole samples only.
pub proof fn lemma_decode_concat(a: Seq<u8>, b: Seq<u8>)
    requires
        a.len() % 4 == 0,
    ensures
        decode(a + b) == decode(a) + decode(b),
{
    let ab = a + b;
    assert(ab.len() / 4 == a.len() / 4 + b.len() / 4) by (nonlinear_arith)
        requires
            ab.len() == a.len() + b.len(),
            a.len() % 4 == 0,
            a.len() >= 0,
            b.len() >= 0,
    ;
    assert forall|i: int| 0 <= i < decode(ab).len() implies #[trigger] decode(ab)[i] == (decode(a)
        + decode(b))[i] by {
        if i < a.len() / 4 {
            assert(4 * i + 3 < a.len()) by (nonlinear_arith)
                requires
                    i < a.len() / 4,
                    a.len() % 4 == 0,
                    0 <= i,
            ;
        } else {
            let j = i - a.len() / 4;
            assert(4 * i == a.len() + 4 * j) by (nonlinear_arith)
                requires
                    j == i - a.len() / 4,
                    a.len() % 4 == 0,
            ;
            assert(4 * j + 3 < b.len()) by (nonlinear_arith)
                requires
                    0 <= j < b.len() / 4,
            ;
        }
    }
    assert(decode(ab) =~= decode(a) + decode(b));
}

/// Decodes a payload into samples, dropping a trailing partial group.
pub fn decode_samples(data: &[u8]) -> (r: Vec<u32>)
    ensures
        r@ == decode(data@),
{
    let n: usize = data.len() / 4;
    let mut r: Vec<u32> = Vec::with_capacity(n);
    let mut i: usize = 0;
    while i < n
        invariant
            n == data.len() / 4,
            data.len() == data@.len(),
            i <= n,
            r@ =~= decode(data@).subrange(0, i as int),
        decreases n - i,
    {
        assert(4 * i + 3 < data.len()) by (nonlinear_arith)
            requires
                i < n,
                n == data.len() / 4,
        ;
        let k: usize = 4 * i;
        let v: u32 = (data[k] as u32) | ((data[k + 1] as u32) << 8u32) | ((data[k + 2] as u32)
            << 16u32) | ((data[k + 3] as u32) << 24u32);
        r.push(v);
        i = i + 1;
    }
    r
}

/// Encodes samples as their little-endian images, in order.
pub fn encode_samples(samples: &[u32]) -> (r: Vec<u8>)
    requires
        4 * samples@.len() <= usize::MAX,
    ensures
        r@ == encode(samples@),
{
    let mut r: Vec<u8> = Vec::with_capacity(4 * samples.len());
    let mut i: usize = 0;
    while i < samples.len()
        invariant
            4 * samples@.len() <= usize::MAX,
            i <= samples@.len(),
            r@ =~= encode(samples@).subrange(0, 4 * i as int),
        decreases samples@.len() - i,
    {
        let s: u32 = samples[i];
        let ghost before = r@;
        r.push((s & 0xff) as u8);
        r.push(((s >> 8u32) & 0xff) as u8);
        r.push(((s >> 16u32) & 0xff) as u8);
        r.push(((s >> 24u32) & 0xff) as u8);
        proof {
            lemma_group_index(i as int, 0);
            lemma_group_index(i as int, 1);
            lemma_group_index(i as int, 2);
            lemma_group_index(i as int, 3);
            assert(r@ =~= encode(samples@).subrange(0, 4 * (i + 1) as int));
        }
        i = i + 1;
    }
    r
}

} // verus!
