//! Splitting an encoded chunk into datagram-sized fragments.
//!
//! Fragments carry no header: the receiver appends each one as it arrives, so
//! a chunk sent in order is rebuilt by concatenation.
use vstd::prelude::*;

use crate::codec::{decode, encode, encode_samples, lemma_decode_concat, lemma_decode_encode};

verus! {

/// Largest payload of one datagram, kept under common path MTUs.
pub const MAX_FRAGMENT: usize = 1200;

/// How many fragments a payload of `len` bytes is split into.
pub open spec fn fragment_count(len: nat) -> nat {
    ((len + 1199) / 1200) as nat
}

/// End (exclusive) of fragment `i` of a payload of `len` bytes.
pub open spec fn fragment_end(len: nat, i: int) -> int {
    if 1200 * (i + 1) <= len {
        1200 * (i + 1)
    } else {
        len as int
    }
}

/// The fragments of `b`: consecutive slices of 1200 bytes, the last one
/// holding what remains.
pub open spec fn fragments(b: Seq<u8>) -> Seq<Seq<u8>> {
    Seq::new(
        fragment_count(b.len()),
        |i: int| b.subrange(1200 * i, fragment_end(b.len(), i)),
    )
}

/// The bytes of the fragments `fs`, laid end to end in order.
pub open spec fn concat_all(fs: Seq<Seq<u8>>) -> Seq<u8>
    decreases fs.len(),
{
    if fs.len() == 0 {
        Seq::empty()
    } else {
        concat_all(fs.drop_last()) + fs.last()
    }
}

/// The samples obtained by decoding each fragment of `fs` on its own, in order.
pub open spec fn decode_each(fs: Seq<Seq<u8>>) -> Seq<u32>
    decreases fs.len(),
{
    if fs.len() == 0 {
        Seq::empty()
    } else {
        decode_each(fs.drop_last()) + decode(fs.last())
    }
}

proof fn lemma_count_bounds(len: nat, k: int)
    requires
        0 <= k < fragment_count(len),
    ensures
        1200 * k < len,
        1200 * k + 1200 <= len || fragment_end(len, k) == len,
        k + 1 == fragment_count(len) ==> fragment_end(len, k) == len,
{
    assert(1200 * k < len) by (nonlinear_arith)
        requires
            0 <= k < (len + 1199) / 1200,
    ;
    if k + 1 == fragment_count(len) {
        assert(1200 * (k + 1) >= len) by (nonlinear_arith)
            requires
                k + 1 == (len + 1199) / 1200,
        ;
    }
}

proof fn lemma_prefix(b: Seq<u8>, k: int)
    requires
        0 <= k <= fragment_count(b.len()),
    ensures
        k > 0 ==> concat_all(fragments(b).take(k)) == b.subrange(0, fragment_end(b.len(), k - 1)),
        k > 0 && b.len() % 4 == 0 ==> decode_each(fragments(b).take(k)) == decode(
            b.subrange(0, fragment_end(b.len(), k - 1)),
        ),
    decreases k,
{
    let fs = fragments(b);
    if k > 0 {
        let t = fs.take(k);
        assert(t.drop_last() =~= fs.take(k - 1));
        lemma_count_bounds(b.len(), k - 1);
        let end = fragment_end(b.len(), k - 1);
        if k == 1 {
            let e = Seq::<Seq<u8>>::empty();
            assert(t.drop_last() =~= e);
            assert(concat_all(e) == Seq::<u8>::empty());
            assert(decode_each(e) == Seq::<u32>::empty());
            assert(t.last() == b.subrange(0, end));
            assert(concat_all(t) =~= b.subrange(0, end));
            assert(decode_each(t) =~= decode(b.subrange(0, end)));
        } else {
            lemma_prefix(b, k - 1);
            lemma_count_bounds(b.len(), k - 2);
            let mid = fragment_end(b.len(), k - 2);
            assert(mid == 1200 * (k - 1));
            assert(b.subrange(0, end) =~= b.subrange(0, mid) + b.subrange(mid, end));
            if b.len() % 4 == 0 {
                assert(mid % 4 == 0) by (nonlinear_arith)
                    requires
                        mid == 1200 * (k - 1),
                ;
                lemma_decode_concat(b.subrange(0, mid), b.subrange(mid, end));
            }
        }
    }
}

/// Laying the fragments of a payload end to end gives the payload back.
pub proof fn lemma_concat_fragments(b: Seq<u8>)
    ensures
        concat_all(fragments(b)) == b,
{
    let fs = fragments(b);
    let n = fragment_count(b.len());
    assert(fs.take(n as int) =~= fs);
    if n == 0 {
        assert(b =~= Seq::<u8>::empty());
    } else {
        lemma_prefix(b, n as int);
        lemma_count_bounds(b.len(), n - 1);
        assert(b.subrange(0, b.len() as int) =~= b);
    }
}

/// A chunk of samples that is encoded, split into fragments, and sent in
/// order is rebuilt exactly by the receiver, whether it decodes the
/// reassembled payload or each fragment as it arrives.
pub proof fn lemma_fragment_round_trip(s: Seq<u32>)
    ensures
        decode(concat_all(fragments(encode(s)))) == s,
        decode_each(fragments(encode(s))) == s,
{
    let b = encode(s);
    lemma_concat_fragments(b);
    lemma_decode_encode(s);
    let fs = fragments(b);
    let n = fragment_count(b.len());
    assert(fs.take(n as int) =~= fs);
    assert(b.len() % 4 == 0) by (nonlinear_arith)
        requires
            b.len() == 4 * s.len(),
    ;
    if n == 0 {
        assert(b =~= Seq::<u8>::empty());
        assert(s =~= Seq::<u32>::empty());
    } else {
        lemma_prefix(b, n as int);
        lemma_count_bounds(b.len(), n - 1);
        assert(b.subrange(0, b.len() as int) =~= b);
    }
}

/// Splits an encoded chunk into fragments of at most `MAX_FRAGMENT` bytes,
/// in order; every fragment but the last is full.
pub fn split_fragments(data: &[u8]) -> (r: Vec<Vec<u8>>)
    ensures
        r@.len() == fragments(data@).len(),
        forall|i: int| 0 <= i < r@.len() ==> #[trigger] r@[i]@ == fragments(data@)[i],
        forall|i: int| 0 <= i < r@.len() ==> 0 < #[trigger] r@[i]@.len() <= MAX_FRAGMENT,
{
    let len: usize = data.len();
    let mut r: Vec<Vec<u8>> = Vec::new();
    let mut start: usize = 0;
    while start < len
        invariant
            len == data@.len(),
            start <= len,
            start == 1200 * r@.len() || start == len,
            start == len ==> r@.len() == fragment_count(len as nat),
            start < len ==> 1200 * r@.len() < len,
            r@.len() <= fragment_count(len as nat),
            forall|i: int| 0 <= i < r@.len() ==> #[trigger] r@[i]@ == fragments(data@)[i],
        decreases len - start,
    {
        let end: usize = if len - start > MAX_FRAGMENT {
            start + MAX_FRAGMENT
        } else {
            len
        };
        let piece: Vec<u8> = vstd::slice::slice_to_vec(&data[start..end]);
        proof {
            let k = r@.len() as int;
            assert(start == 1200 * k);
            assert(k < fragment_count(len as nat)) by (nonlinear_arith)
                requires
                    1200 * k < len,
            ;
            assert(end == fragment_end(len as nat, k));
            if end == len {
                assert(k + 1 >= fragment_count(len as nat)) by (nonlinear_arith)
                    requires
                        1200 * k + 1200 >= len,
                        1200 * k < len,
                ;
            }
        }
        r.push(piece);
        start = end;
    }
    proof {
        assert forall|i: int| 0 <= i < r@.len() implies 0 < #[trigger] r@[i]@.len() <= MAX_FRAGMENT by {
            lemma_count_bounds(len as nat, i);
        }
    }
    r
}

/// The datagrams that carry a chunk of samples: its wire encoding, split into
/// fragments.
pub fn chunk_datagrams(samples: &[u32]) -> (r: Vec<Vec<u8>>)
    requires
        4 * samples@.len() <= usize::MAX,
    ensures
        r@.len() == fragments(encode(samples@)).len(),
        forall|i: int| 0 <= i < r@.len() ==> #[trigger] r@[i]@ == fragments(encode(samples@))[i],
        forall|i: int| 0 <= i < r@.len() ==> 0 < #[trigger] r@[i]@.len() <= MAX_FRAGMENT,
{
    let bytes = encode_samples(samples);
    split_fragments(&bytes)
}

} // verus!
