//! Persisting finished buffers as uncompressed WAV files.
//!
//! The file is a 44-byte header followed by the samples as little-endian
//! 32-bit floats: mono, 44100 Hz, IEEE-float format.
use vstd::prelude::*;

use crate::codec::{encode, encode_samples, le_bytes};
use crate::reassembly::SenderId;
use crate::text::{digits, padded, push_padded};

verus! {

/// Largest sample count whose sizes fit the header's 32-bit fields.
pub const MAX_WAV_SAMPLES: usize = 1073741814;

/// Format tag of IEEE floating-point samples.
pub const FORMAT_IEEE_FLOAT: u16 = 3;

/// The little-endian byte image of a 16-bit field.
pub open spec fn le16(x: u16) -> Seq<u8> {
    seq![(x & 0xff) as u8, ((x >> 8u16) & 0xff) as u8]
}

/// The 44-byte header of a file holding `n` samples.
pub open spec fn wav_header(n: nat) -> Seq<u8> {
    seq![('R' as u8), ('I' as u8), ('F' as u8), ('F' as u8)] + le_bytes((36 + 4 * n) as u32) + seq![('W' as u8), ('A' as u8), ('V' as u8), ('E' as u8)]
        + seq![('f' as u8), ('m' as u8), ('t' as u8), (' ' as u8)] + le_bytes(16) + le16(FORMAT_IEEE_FLOAT) + le16(1)
        + le_bytes(44100) + le_bytes(176400) + le16(4) + le16(32) + seq![
        ('d' as u8),
        ('a' as u8),
        ('t' as u8),
        ('a' as u8),
    ] + le_bytes((4 * n) as u32)
}

/// The fields of the header of a file with `n` samples: the RIFF size is
/// `36 + 4n`, the data size `4n`, and the format is fixed to mono, 44100 Hz,
/// 32-bit IEEE float.
pub proof fn lemma_header_fields(n: nat)
    requires
        n <= MAX_WAV_SAMPLES,
    ensures
        wav_header(n).len() == 44,
        wav_header(n).subrange(0, 4) == seq!['R' as u8, 'I' as u8, 'F' as u8, 'F' as u8],
        wav_header(n).subrange(4, 8) == le_bytes((36 + 4 * n) as u32),
        wav_header(n).subrange(20, 22) == le16(FORMAT_IEEE_FLOAT),
        wav_header(n).subrange(22, 24) == le16(1),
        wav_header(n).subrange(24, 28) == le_bytes(44100),
        wav_header(n).subrange(34, 36) == le16(32),
        wav_header(n).subrange(36, 40) == seq!['d' as u8, 'a' as u8, 't' as u8, 'a' as u8],
        wav_header(n).subrange(40, 44) == le_bytes((4 * n) as u32),
{
    let h = wav_header(n);
    assert(h.subrange(0, 4) =~= seq!['R' as u8, 'I' as u8, 'F' as u8, 'F' as u8]);
    assert(h.subrange(4, 8) =~= le_bytes((36 + 4 * n) as u32));
    assert(h.subrange(20, 22) =~= le16(FORMAT_IEEE_FLOAT));
    assert(h.subrange(22, 24) =~= le16(1));
    assert(h.subrange(24, 28) =~= le_bytes(44100));
    assert(h.subrange(34, 36) =~= le16(32));
    assert(h.subrange(36, 40) =~= seq!['d' as u8, 'a' as u8, 't' as u8, 'a' as u8]);
    assert(h.subrange(40, 44) =~= le_bytes((4 * n) as u32));
}

/// The whole file that holds `samples`.
pub open spec fn wav_file(samples: Seq<u32>) -> Seq<u8> {
    wav_header(samples.len()) + encode(samples)
}

/// The name of recording number `counter` from a sender on `port`:
/// `recording_<counter, at least 3 digits>_<port>.wav`.
pub open spec fn recording_name(counter: u64, port: u16) -> Seq<u8> {
    seq![('r' as u8), ('e' as u8), ('c' as u8), ('o' as u8), ('r' as u8), ('d' as u8), ('i' as u8), ('n' as u8), ('g' as u8), ('_' as u8)] + padded(counter as nat, 3)
        + seq![('_' as u8)] + digits(port as nat) + seq![('.' as u8), ('w' as u8), ('a' as u8), ('v' as u8)]
}

fn push_u32_le(out: &mut Vec<u8>, x: u32)
    ensures
        final(out)@ == old(out)@ + le_bytes(x),
{
    out.push((x & 0xff) as u8);
    out.push(((x >> 8u32) & 0xff) as u8);
    out.push(((x >> 16u32) & 0xff) as u8);
    out.push(((x >> 24u32) & 0xff) as u8);
    assert(final(out)@ =~= old(out)@ + le_bytes(x));
}

fn push_u16_le(out: &mut Vec<u8>, x: u16)
    ensures
        final(out)@ == old(out)@ + le16(x),
{
    out.push((x & 0xff) as u8);
    out.push(((x >> 8u16) & 0xff) as u8);
    assert(final(out)@ =~= old(out)@ + le16(x));
}

fn push_tag(out: &mut Vec<u8>, a: u8, b: u8, c: u8, d: u8)
    ensures
        final(out)@ == old(out)@ + seq![a, b, c, d],
{
    out.push(a);
    out.push(b);
    out.push(c);
    out.push(d);
    assert(final(out)@ =~= old(out)@ + seq![a, b, c, d]);
}

/// The header of a file holding `sample_count` samples.
pub fn wav_header_bytes(sample_count: usize) -> (r: Vec<u8>)
    requires
        sample_count <= MAX_WAV_SAMPLES,
    ensures
        r@ == wav_header(sample_count as nat),
        r@.len() == 44,
{
    let data_size: u32 = (4 * sample_count) as u32;
    let mut r: Vec<u8> = Vec::with_capacity(44);
    push_tag(&mut r, ('R' as u8), ('I' as u8), ('F' as u8), ('F' as u8));
    push_u32_le(&mut r, 36 + data_size);
    push_tag(&mut r, ('W' as u8), ('A' as u8), ('V' as u8), ('E' as u8));
    push_tag(&mut r, ('f' as u8), ('m' as u8), ('t' as u8), (' ' as u8));
    push_u32_le(&mut r, 16);
    push_u16_le(&mut r, FORMAT_IEEE_FLOAT);
    push_u16_le(&mut r, 1);
    push_u32_le(&mut r, 44100);
    push_u32_le(&mut r, 176400);
    push_u16_le(&mut r, 4);
    push_u16_le(&mut r, 32);
    push_tag(&mut r, ('d' as u8), ('a' as u8), ('t' as u8), ('a' as u8));
    push_u32_le(&mut r, data_size);
    proof {
        assert(r@ =~= wav_header(sample_count as nat));
    }
    r
}

/// The whole file that holds `samples`: header, then the samples.
pub fn wav_file_bytes(samples: &[u32]) -> (r: Vec<u8>)
    requires
        samples@.len() <= MAX_WAV_SAMPLES,
    ensures
        r@ == wav_file(samples@),
{
    let mut r = wav_header_bytes(samples.len());
    let mut body = encode_samples(samples);
    r.append(&mut body);
    r
}

/// A file ready to be written: its name and its bytes.
pub struct Recording {
    pub file_name: Vec<u8>,
    pub bytes: Vec<u8>,
}

/// Why a buffer could not be made into a file.
#[derive(Clone, Copy, Debug, PartialEq, Eq, Structural)]
pub enum PersistError {
    /// The buffer holds more than `MAX_WAV_SAMPLES` samples.
    TooLong,
    /// Every recording number has been used.
    CounterExhausted,
}

/// Names and lays out recordings; each gets the next number of its own
/// counter, so separate persisters never interfere.
pub struct WavPersister {
    counter: u64,
}

impl WavPersister {
    /// The number the next recording gets.
    pub closed spec fn next_number(&self) -> u64 {
        self.counter
    }

    /// A persister whose first recording is number 0.
    pub fn new() -> (r: Self)
        ensures
            r.next_number() == 0,
    {
        WavPersister { counter: 0 }
    }

    /// The number the next recording gets.
    pub fn counter(&self) -> (r: u64)
        ensures
            r == self.next_number(),
    {
        self.counter
    }

    /// Makes the next recording of `samples` from `sender`: a fresh name from
    /// the counter and the sender's port, and the file's bytes. The counter
    /// moves on only when a recording is made.
    pub fn prepare(&mut self, sender: SenderId, samples: &[u32]) -> (r: Result<
        Recording,
        PersistError,
    >)
        ensures
            match r {
                Ok(rec) => {
                    &&& samples@.len() <= MAX_WAV_SAMPLES
                    &&& old(self).next_number() < u64::MAX
                    &&& rec.file_name@ == recording_name(old(self).next_number(), sender.port)
                    &&& rec.bytes@ == wav_file(samples@)
                    &&& final(self).next_number() == old(self).next_number() + 1
                },
                Err(e) => {
                    &&& final(self).next_number() == old(self).next_number()
                    &&& (e == PersistError::TooLong <==> samples@.len() > MAX_WAV_SAMPLES)
                    &&& (e == PersistError::CounterExhausted <==> (samples@.len()
                        <= MAX_WAV_SAMPLES && old(self).next_number() == u64::MAX))
                },
            },
    {
        if samples.len() > MAX_WAV_SAMPLES {
            return Err(PersistError::TooLong);
        }
        if self.counter == u64::MAX {
            return Err(PersistError::CounterExhausted);
        }
        let mut name: Vec<u8> = Vec::new();
        push_tag(&mut name, ('r' as u8), ('e' as u8), ('c' as u8), ('o' as u8));
        push_tag(&mut name, ('r' as u8), ('d' as u8), ('i' as u8), ('n' as u8));
        name.push(('g' as u8));
        name.push(('_' as u8));
        push_padded(&mut name, self.counter, 3);
        name.push(('_' as u8));
        push_padded(&mut name, sender.port as u64, 1);
        push_tag(&mut name, ('.' as u8), ('w' as u8), ('a' as u8), ('v' as u8));
        proof {
            let d = digits(sender.port as nat);
            crate::text::lemma_padded_width_one(sender.port as nat);
            assert(name@ =~= recording_name(self.counter, sender.port));
        }
        let bytes = wav_file_bytes(samples);
        self.counter = self.counter + 1;
        Ok(Recording { file_name: name, bytes })
    }
}

} // verus!
