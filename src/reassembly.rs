//! Per-sender reassembly of received audio.
//!
//! Every datagram is decoded and appended to the buffer of the sender it came
//! from. Once a buffer holds enough audio to be worth keeping it is handed out
//! whole and the sender's buffer starts again empty. Senders that fall silent
//! are forgotten by an explicit sweep.
use vstd::prelude::*;

use crate::codec::{decode, decode_samples};

verus! {

/// Samples per second of every stream.
pub const SAMPLE_RATE: u64 = 44100;

/// A buffer is handed out once it holds two seconds of audio.
pub const PERSIST_SAMPLES: usize = 88200;

/// A sender whose last datagram is this many milliseconds old is forgotten.
pub const ENTRY_TTL_MS: u64 = 30000;

/// The network address a datagram came from: the host as a 128-bit address
/// (IPv4 hosts in their IPv6-mapped form) and the port.
#[derive(Clone, Copy, Debug, PartialEq, Eq, Structural)]
pub struct SenderId {
    pub host: u128,
    pub port: u16,
}

/// What the store holds for one sender.
pub struct ChunkView {
    pub samples: Seq<u32>,
    pub last_update: u64,
}

/// The buffer of one sender and the time, in milliseconds, of its last datagram.
pub struct AudioChunk {
    sender: SenderId,
    samples: Vec<u32>,
    last_update: u64,
}

impl AudioChunk {
    /// The sender this buffer belongs to.
    pub closed spec fn spec_sender(&self) -> SenderId {
        self.sender
    }

    pub closed spec fn view(&self) -> ChunkView {
        ChunkView { samples: self.samples@, last_update: self.last_update }
    }

    /// The sender this buffer belongs to.
    pub fn sender(&self) -> (r: SenderId)
        ensures
            r == self.spec_sender(),
    {
        self.sender
    }

    /// The samples received from the sender since its buffer was last handed out.
    pub fn samples(&self) -> (r: &Vec<u32>)
        ensures
            r@ == self@.samples,
    {
        &self.samples
    }

    /// When the sender's last datagram arrived.
    pub fn last_update(&self) -> (r: u64)
        ensures
            r == self@.last_update,
    {
        self.last_update
    }
}

/// Whether a sender last heard from at `last_update` is still kept at `now`.
pub open spec fn is_live(last_update: u64, now: u64) -> bool {
    now < last_update + ENTRY_TTL_MS
}

/// The samples buffered for `id` in `m`; none for an unknown sender.
pub open spec fn buffered(m: Map<SenderId, ChunkView>, id: SenderId) -> Seq<u32> {
    if m.contains_key(id) {
        m[id].samples
    } else {
        Seq::empty()
    }
}

/// The buffer of `id` once `new` samples are appended to it.
pub open spec fn pending(m: Map<SenderId, ChunkView>, id: SenderId, new: Seq<u32>) -> Seq<u32> {
    buffered(m, id) + new
}

/// What an ingest hands out: the whole buffer, once it reaches two seconds.
pub open spec fn flushed(m: Map<SenderId, ChunkView>, id: SenderId, new: Seq<u32>) -> Option<
    Seq<u32>,
> {
    if pending(m, id, new).len() >= PERSIST_SAMPLES {
        Some(pending(m, id, new))
    } else {
        None
    }
}

/// The store after `new` samples from `id` arrive at `now`.
pub open spec fn ingested(
    m: Map<SenderId, ChunkView>,
    id: SenderId,
    new: Seq<u32>,
    now: u64,
) -> Map<SenderId, ChunkView> {
    let kept = if pending(m, id, new).len() >= PERSIST_SAMPLES {
        Seq::empty()
    } else {
        pending(m, id, new)
    };
    m.insert(id, ChunkView { samples: kept, last_update: now })
}

/// The store after a sweep at `now`: the live senders, unchanged.
pub open spec fn swept(m: Map<SenderId, ChunkView>, now: u64) -> Map<SenderId, ChunkView> {
    Map::new(|k: SenderId| m.contains_key(k) && is_live(m[k].last_update, now), |k: SenderId| m[k])
}

/// A sender silent for `ENTRY_TTL_MS` or more is gone after a sweep, and none
/// of the samples it had buffered is ever handed out afterwards: what a later
/// datagram from it can flush holds only the samples that arrive from then on.
pub proof fn lemma_expired_never_persisted(
    m: Map<SenderId, ChunkView>,
    id: SenderId,
    now: u64,
    new: Seq<u32>,
)
    requires
        m.contains_key(id),
        !is_live(m[id].last_update, now),
    ensures
        !swept(m, now).contains_key(id),
        pending(swept(m, now), id, new) == new,
        flushed(swept(m, now), id, new) is Some ==> flushed(swept(m, now), id, new) == Some(new),
{
    assert(pending(swept(m, now), id, new) =~= new);
}

/// Two seconds or more of audio delivered for one sender flush that sender's
/// whole buffer at once and leave it empty.
pub proof fn lemma_full_delivery_flushes(
    m: Map<SenderId, ChunkView>,
    id: SenderId,
    new: Seq<u32>,
    now: u64,
)
    requires
        new.len() >= PERSIST_SAMPLES,
    ensures
        flushed(m, id, new) == Some(buffered(m, id) + new),
        flushed(m, id, new).unwrap().len() >= PERSIST_SAMPLES,
        ingested(m, id, new, now)[id].samples.len() == 0,
        !m.contains_key(id) ==> flushed(m, id, new) == Some(new),
{
    if !m.contains_key(id) {
        assert(buffered(m, id) + new =~= new);
    }
}

/// Datagrams from two distinct senders do not interact: taken in either
/// order they leave the same store, and each flushes what it would have
/// flushed alone.
pub proof fn lemma_distinct_senders_commute(
    m: Map<SenderId, ChunkView>,
    a: SenderId,
    x: Seq<u32>,
    ta: u64,
    b: SenderId,
    y: Seq<u32>,
    tb: u64,
)
    requires
        a != b,
    ensures
        ingested(ingested(m, a, x, ta), b, y, tb) == ingested(ingested(m, b, y, tb), a, x, ta),
        flushed(ingested(m, a, x, ta), b, y) == flushed(m, b, y),
        flushed(ingested(m, b, y, tb), a, x) == flushed(m, a, x),
{
    assert(buffered(ingested(m, a, x, ta), b) == buffered(m, b));
    assert(buffered(ingested(m, b, y, tb), a) == buffered(m, a));
    assert(ingested(ingested(m, a, x, ta), b, y, tb) =~= ingested(ingested(m, b, y, tb), a, x, ta));
}

/// The samples of an optional buffer.
pub open spec fn samples_of(r: Option<Vec<u32>>) -> Option<Seq<u32>> {
    match r {
        Some(v) => Some(v@),
        None => None,
    }
}

/// The buffers of all senders, at most one per sender.
pub struct AudioProcessor {
    chunks: Vec<AudioChunk>,
    contents: Ghost<Map<SenderId, ChunkView>>,
}

impl View for AudioProcessor {
    type V = Map<SenderId, ChunkView>;

    closed spec fn view(&self) -> Map<SenderId, ChunkView> {
        self.contents@
    }
}

impl AudioProcessor {
    /// The buffers are held one per sender, and they are exactly what the
    /// view maps each sender to.
    pub closed spec fn wf(&self) -> bool {
        &&& forall|i: int, j: int|
            0 <= i < j < self.chunks@.len() ==> #[trigger] self.chunks@[i].sender
                != #[trigger] self.chunks@[j].sender
        &&& forall|i: int|
            0 <= i < self.chunks@.len() ==> self@.contains_key(#[trigger] self.chunks@[i].sender)
                && self@[self.chunks@[i].sender] == self.chunks@[i]@
        &&& forall|k: SenderId|
            #[trigger] self@.contains_key(k) ==> exists|i: int|
                0 <= i < self.chunks@.len() && #[trigger] self.chunks@[i].sender == k
    }

    /// An empty store.
    pub fn new() -> (r: Self)
        ensures
            r.wf(),
            r@ == Map::<SenderId, ChunkView>::empty(),
    {
        AudioProcessor { chunks: Vec::new(), contents: Ghost(Map::empty()) }
    }

    /// How many senders have a buffer.
    pub fn len(&self) -> (r: usize)
        requires
            self.wf(),
        ensures
            r == self@.len(),
    {
        proof {
            self.lemma_len();
        }
        self.chunks.len()
    }

    proof fn lemma_len(&self)
        requires
            self.wf(),
        ensures
            self@.len() == self.chunks@.len(),
    {
        let ids = self.chunks@.map_values(|c: AudioChunk| c.sender);
        assert(self@.dom() =~= ids.to_set()) by {
            assert forall|k: SenderId| self@.dom().contains(k) implies ids.to_set().contains(k) by {
                let i = choose|i: int| 0 <= i < self.chunks@.len() && #[trigger] self.chunks@[i].sender == k;
                assert(ids[i] == k);
            }
            assert forall|k: SenderId| ids.to_set().contains(k) implies self@.dom().contains(k) by {
                let i = choose|i: int| 0 <= i < ids.len() && ids[i] == k;
                assert(self.chunks@[i].sender == k);
            }
        }
        assert(ids.no_duplicates()) by {
            assert forall|i: int, j: int| 0 <= i < ids.len() && 0 <= j < ids.len() && i != j implies ids[i] != ids[j] by {
                if i < j {
                    assert(self.chunks@[i].sender != self.chunks@[j].sender);
                } else {
                    assert(self.chunks@[j].sender != self.chunks@[i].sender);
                }
            }
        }
        ids.unique_seq_to_set();
    }

    /// Where the buffer of `id` stands, if it has one.
    fn position_of(&self, id: SenderId) -> (r: Option<usize>)
        requires
            self.wf(),
        ensures
            match r {
                Some(i) => i < self.chunks@.len() && self.chunks@[i as int].sender == id,
                None => !self@.contains_key(id),
            },
    {
        let mut i: usize = 0;
        while i < self.chunks.len()
            invariant
                i <= self.chunks@.len(),
                forall|j: int| 0 <= j < i ==> #[trigger] self.chunks@[j].sender != id,
            decreases self.chunks@.len() - i,
        {
            if self.chunks[i].sender == id {
                return Some(i);
            }
            i = i + 1;
        }
        None
    }

    /// The buffer held for `id`, if any.
    pub fn chunk(&self, id: SenderId) -> (r: Option<&AudioChunk>)
        requires
            self.wf(),
        ensures
            match r {
                Some(c) => self@.contains_key(id) && c.spec_sender() == id && c@ == self@[id],
                None => !self@.contains_key(id),
            },
    {
        match self.position_of(id) {
            Some(i) => Some(&self.chunks[i]),
            None => None,
        }
    }

    /// Appends the samples of a datagram from `addr`, received at `now`, to
    /// the sender's buffer, creating it on first contact. Once the buffer
    /// holds two seconds of audio it is handed out whole and the sender's
    /// buffer starts again empty.
    pub fn process_packet(&mut self, addr: SenderId, data: &[u8], now: u64) -> (r: Option<Vec<u32>>)
        requires
            old(self).wf(),
        ensures
            final(self).wf(),
            final(self)@ == ingested(old(self)@, addr, decode(data@), now),
            samples_of(r) == flushed(old(self)@, addr, decode(data@)),
    {
        let mut new_samples = decode_samples(data);
        let at = self.position_of(addr);
        let ghost before = self.chunks@;
        let mut chunk = match at {
            Some(i) => self.chunks.remove(i),
            None => AudioChunk { sender: addr, samples: Vec::new(), last_update: now },
        };
        assert(chunk.samples@ == buffered(self@, addr));
        chunk.samples.append(&mut new_samples);
        let AudioChunk { sender, samples, last_update: _ } = chunk;
        let (kept, out) = if samples.len() >= PERSIST_SAMPLES {
            (Vec::new(), Some(samples))
        } else {
            (samples, None)
        };
        let chunk = AudioChunk { sender, samples: kept, last_update: now };
        match at {
            Some(i) => self.chunks.insert(i, chunk),
            None => self.chunks.push(chunk),
        }
        proof {
            let m = self.contents@.insert(addr, chunk@);
            self.contents = Ghost(m);
            assert(self.chunks@ =~= match at {
                Some(i) => before.update(i as int, chunk),
                None => before.push(chunk),
            });
            assert forall|k: SenderId| #[trigger] self@.contains_key(k) implies exists|i: int|
                0 <= i < self.chunks@.len() && #[trigger] self.chunks@[i].sender == k by {
                if k == addr {
                    let i = match at {
                        Some(i) => i as int,
                        None => before.len() as int,
                    };
                    assert(self.chunks@[i].sender == k);
                } else {
                    let i = choose|i: int| 0 <= i < before.len() && #[trigger] before[i].sender == k;
                    assert(self.chunks@[i].sender == k);
                }
            }
            assert(self.chunks@.len() == before.len() || self.chunks@.len() == before.len() + 1);
            assert(ingested(old(self)@, addr, decode(data@), now) =~= m);
        }
        out
    }

    /// Forgets, without handing out their samples, every sender whose last
    /// datagram is `ENTRY_TTL_MS` or more old at `now`.
    pub fn cleanup_old_chunks(&mut self, now: u64)
        requires
            old(self).wf(),
        ensures
            final(self).wf(),
            final(self)@ == swept(old(self)@, now),
    {
        let ghost m = self@;
        let mut rest: Vec<AudioChunk> = Vec::new();
        std::mem::swap(&mut self.chunks, &mut rest);
        let ghost src = rest@;
        let mut kept: Vec<AudioChunk> = Vec::new();
        let ghost mut km: Map<SenderId, ChunkView> = Map::empty();
        while rest.len() > 0
            invariant
                forall|a: int, b: int|
                    0 <= a < b < src.len() ==> #[trigger] src[a].sender != #[trigger] src[b].sender,
                forall|a: int|
                    0 <= a < src.len() ==> m.contains_key(#[trigger] src[a].sender) && m[src[a].sender]
                        == src[a]@,
                forall|k: SenderId|
                    #[trigger] m.contains_key(k) ==> exists|a: int|
                        0 <= a < src.len() && #[trigger] src[a].sender == k,
                rest@.len() <= src.len(),
                rest@ == src.subrange(0, rest@.len() as int),
                forall|t: int|
                    0 <= t < kept@.len() ==> km.contains_key(#[trigger] kept@[t].sender)
                        && km[kept@[t].sender] == kept@[t]@,
                forall|k: SenderId|
                    #[trigger] km.contains_key(k) ==> exists|t: int|
                        0 <= t < kept@.len() && #[trigger] kept@[t].sender == k,
                forall|t1: int, t2: int|
                    0 <= t1 < t2 < kept@.len() ==> #[trigger] kept@[t1].sender
                        != #[trigger] kept@[t2].sender,
                forall|k: SenderId|
                    #[trigger] km.contains_key(k) <==> (m.contains_key(k) && is_live(
                        m[k].last_update,
                        now,
                    ) && exists|a: int|
                        rest@.len() <= a < src.len() && #[trigger] src[a].sender == k),
                forall|k: SenderId| #[trigger] km.contains_key(k) ==> km[k] == m[k],
            decreases rest@.len(),
        {
            let ghost r = rest@.len() as int;
            let c = rest.pop().unwrap();
            assert(c == src[r - 1]);
            let live = now <= c.last_update || now - c.last_update < ENTRY_TTL_MS;
            assert(live == is_live(c.last_update, now));
            let ghost km0 = km;
            let ghost kept0 = kept@;
            if live {
                proof {
                    if km0.contains_key(c.sender) {
                        let a = choose|a: int| r <= a < src.len() && #[trigger] src[a].sender == c.sender;
                        assert(src[r - 1].sender == src[a].sender);
                    }
                    km = km.insert(c.sender, c@);
                }
                kept.push(c);
                proof {
                    assert forall|k: SenderId| #[trigger] km.contains_key(k) implies exists|t: int|
                        0 <= t < kept@.len() && #[trigger] kept@[t].sender == k by {
                        if k == c.sender {
                            assert(kept@[kept@.len() - 1].sender == k);
                        } else {
                            assert(km0.contains_key(k));
                            let t = choose|t: int| 0 <= t < kept0.len() && #[trigger] kept0[t].sender == k;
                            assert(kept@[t] == kept0[t]);
                        }
                    }
                }
            }
            proof {
                assert forall|k: SenderId| #[trigger] km.contains_key(k) <==> (m.contains_key(k) && is_live(
                    m[k].last_update,
                    now,
                ) && exists|a: int| r - 1 <= a < src.len() && #[trigger] src[a].sender == k) by {
                    if k == c.sender {
                        assert(src[r - 1].sender == k);
                    } else if (exists|a: int| r - 1 <= a < src.len() && #[trigger] src[a].sender == k) {
                        let a = choose|a: int| r - 1 <= a < src.len() && #[trigger] src[a].sender == k;
                        assert(a != r - 1);
                        assert(r <= a < src.len() && src[a].sender == k);
                    }
                }
                assert(rest@ =~= src.subrange(0, rest@.len() as int));
            }
        }
        self.chunks = kept;
        self.contents = Ghost(km);
        proof {
            assert forall|k: SenderId| #[trigger] km.contains_key(k) == swept(m, now).contains_key(k) by {
                if m.contains_key(k) {
                    let a = choose|a: int| 0 <= a < src.len() && #[trigger] src[a].sender == k;
                    assert(src[a].sender == k);
                }
            }
            assert(km =~= swept(m, now));
            assert(self.chunks@ == kept@);
            assert(self@ == km);
            assert forall|i: int, j: int| 0 <= i < j < self.chunks@.len() implies #[trigger] self.chunks@[i].sender
                != #[trigger] self.chunks@[j].sender by {
                assert(kept@[i].sender != kept@[j].sender);
            }
            assert forall|k: SenderId| #[trigger] self@.contains_key(k) implies exists|i: int|
                0 <= i < self.chunks@.len() && #[trigger] self.chunks@[i].sender == k by {
                let t = choose|t: int| 0 <= t < kept@.len() && #[trigger] kept@[t].sender == k;
                assert(self.chunks@[t].sender == k);
            }
        }
    }
}

} // verus!
