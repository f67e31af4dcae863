//! Client-side capture: cutting the microphone stream into utterance-sized
//! chunks.
//!
//! Each block of samples the audio device delivers is appended to the current
//! chunk. A chunk is flushed when it has lasted `MAX_CHUNK_MS`, or when it has
//! lasted `MIN_CHUNK_MS` and ends in more than a tenth of a second of quiet.
//! Samples are bit patterns of 32-bit floats.
use vstd::prelude::*;

verus! {

/// Bit pattern of the float 0.01: a sample is quiet when its magnitude is below it.
pub const SILENCE_THRESHOLD_BITS: u32 = 0x3C23D70A;

/// A chunk is never flushed on silence before it has lasted this long.
pub const MIN_CHUNK_MS: u64 = 500;

/// A chunk is always flushed once it has lasted this long.
pub const MAX_CHUNK_MS: u64 = 5000;

/// Trailing quiet samples beyond which a chunk may end: a tenth of a second
/// at 44100 Hz.
pub const SILENCE_RUN_LIMIT: u64 = 4410;

/// Whether a sample's magnitude is below 0.01. For IEEE floats the magnitude
/// orders as the bit pattern without its sign bit; NaNs count as loud.
pub open spec fn is_quiet(s: u32) -> bool {
    (s & 0x7fff_ffff) < SILENCE_THRESHOLD_BITS
}

/// Whether every sample of a block is quiet.
pub open spec fn is_silent(frame: Seq<u32>) -> bool {
    forall|i: int| 0 <= i < frame.len() ==> is_quiet(#[trigger] frame[i])
}

/// The run of trailing quiet samples after `frame`: it grows by the block's
/// length when the block is silent, and starts again at zero otherwise.
pub open spec fn next_silence_run(run: u64, frame: Seq<u32>) -> u64 {
    if is_silent(frame) {
        if run + frame.len() > u64::MAX {
            u64::MAX
        } else {
            (run + frame.len()) as u64
        }
    } else {
        0
    }
}

/// How long a chunk begun at `start` has lasted at `now`; a clock that went
/// back counts as no time.
pub open spec fn elapsed(start: u64, now: u64) -> int {
    if now >= start {
        now - start
    } else {
        0
    }
}

/// The flush rule: the ceiling, or the floor together with trailing quiet.
pub open spec fn should_flush(elapsed: int, silence_run: u64) -> bool {
    elapsed >= MAX_CHUNK_MS || (elapsed >= MIN_CHUNK_MS && silence_run > SILENCE_RUN_LIMIT)
}

/// What a capture session holds between blocks.
pub struct SessionView {
    pub buffer: Seq<u32>,
    pub chunk_start: Option<u64>,
    pub silence_run: u64,
}

/// The session after a block arrives at `now`, and the chunk it flushes, if any.
pub open spec fn step(v: SessionView, frame: Seq<u32>, now: u64) -> (SessionView, Option<Seq<u32>>) {
    let start = match v.chunk_start {
        Some(t) => t,
        None => now,
    };
    let run = next_silence_run(v.silence_run, frame);
    let buffer = v.buffer + frame;
    if should_flush(elapsed(start, now), run) {
        (SessionView { buffer: Seq::empty(), chunk_start: None, silence_run: 0 }, Some(buffer))
    } else {
        (SessionView { buffer, chunk_start: Some(start), silence_run: run }, None)
    }
}

/// The samples of an optional chunk.
pub open spec fn chunk_of(r: Option<Vec<u32>>) -> Option<Seq<u32>> {
    match r {
        Some(v) => Some(v@),
        None => None,
    }
}

/// One recording episode: the chunk being gathered, when it began, and the
/// run of quiet samples at its end.
pub struct CaptureSession {
    buffer: Vec<u32>,
    chunk_start: Option<u64>,
    silence_run: u64,
}

impl View for CaptureSession {
    type V = SessionView;

    closed spec fn view(&self) -> SessionView {
        SessionView {
            buffer: self.buffer@,
            chunk_start: self.chunk_start,
            silence_run: self.silence_run,
        }
    }
}

fn frame_is_silent(frame: &[u32]) -> (r: bool)
    ensures
        r == is_silent(frame@),
{
    let mut i: usize = 0;
    while i < frame.len()
        invariant
            i <= frame@.len(),
            forall|j: int| 0 <= j < i ==> is_quiet(#[trigger] frame@[j]),
        decreases frame@.len() - i,
    {
        if (frame[i] & 0x7fff_ffff) >= SILENCE_THRESHOLD_BITS {
            return false;
        }
        i = i + 1;
    }
    true
}

impl CaptureSession {
    /// A session with no chunk begun.
    pub fn new() -> (r: Self)
        ensures
            r@.buffer.len() == 0,
            r@.chunk_start is None,
            r@.silence_run == 0,
    {
        CaptureSession { buffer: Vec::new(), chunk_start: None, silence_run: 0 }
    }

    /// The samples gathered for the current chunk.
    pub fn buffer(&self) -> (r: &Vec<u32>)
        ensures
            r@ == self@.buffer,
    {
        &self.buffer
    }

    /// When the current chunk began, if one has.
    pub fn chunk_start(&self) -> (r: Option<u64>)
        ensures
            r == self@.chunk_start,
    {
        self.chunk_start
    }

    /// How many quiet samples end the current chunk.
    pub fn silence_run(&self) -> (r: u64)
        ensures
            r == self@.silence_run,
    {
        self.silence_run
    }

    /// Takes a block of samples delivered at `now` (milliseconds). The first
    /// block after a flush starts a chunk. The block is appended; when the
    /// flush rule holds the whole chunk is returned and the session starts
    /// over with no chunk, no samples and no quiet run.
    pub fn push_frame(&mut self, frame: &[u32], now: u64) -> (r: Option<Vec<u32>>)
        ensures
            final(self)@ == step(old(self)@, frame@, now).0,
            chunk_of(r) == step(old(self)@, frame@, now).1,
    {
        let start: u64 = match self.chunk_start {
            Some(t) => t,
            None => now,
        };
        let silent = frame_is_silent(frame);
        let run: u64 = if silent {
            self.silence_run.saturating_add(frame.len() as u64)
        } else {
            0
        };
        let mut block = vstd::slice::slice_to_vec(frame);
        self.buffer.append(&mut block);
        let spent: u64 = if now >= start {
            now - start
        } else {
            0
        };
        if spent >= MAX_CHUNK_MS || (spent >= MIN_CHUNK_MS && run > SILENCE_RUN_LIMIT) {
            let mut chunk: Vec<u32> = Vec::new();
            std::mem::swap(&mut chunk, &mut self.buffer);
            self.chunk_start = None;
            self.silence_run = 0;
            Some(chunk)
        } else {
            self.chunk_start = Some(start);
            self.silence_run = run;
            None
        }
    }
}

/// A chunk that has lasted `MAX_CHUNK_MS` is flushed by the next block,
/// whatever the block holds and whatever the quiet run.
pub proof fn lemma_ceiling_flushes(v: SessionView, frame: Seq<u32>, now: u64)
    requires
        v.chunk_start is Some,
        now >= v.chunk_start.unwrap() + MAX_CHUNK_MS,
    ensures
        step(v, frame, now).1 == Some(v.buffer + frame),
        step(v, frame, now).0.buffer.len() == 0,
{
}

/// A chunk that has lasted `MIN_CHUNK_MS` is flushed by a silent block that
/// brings the quiet run above `SILENCE_RUN_LIMIT`.
pub proof fn lemma_trailing_silence_flushes(v: SessionView, frame: Seq<u32>, now: u64)
    requires
        v.chunk_start is Some,
        now >= v.chunk_start.unwrap() + MIN_CHUNK_MS,
        is_silent(frame),
        v.silence_run + frame.len() > SILENCE_RUN_LIMIT,
    ensures
        step(v, frame, now).1 == Some(v.buffer + frame),
{
}

/// A chunk kept after a block has lasted less than `MAX_CHUNK_MS`, and no
/// chunk is cut before `MIN_CHUNK_MS` have passed.
pub proof fn lemma_chunk_bounds(v: SessionView, frame: Seq<u32>, now: u64)
    ensures
        step(v, frame, now).0.chunk_start is Some ==> elapsed(
            step(v, frame, now).0.chunk_start.unwrap(),
            now,
        ) < MAX_CHUNK_MS,
        step(v, frame, now).1 is Some ==> elapsed(
            match v.chunk_start {
                Some(t) => t,
                None => now,
            },
            now,
        ) >= MIN_CHUNK_MS,
{
}

/// The client's capture state: recording or not, and while recording the
/// session that gathers chunks.
pub struct AudioCapture {
    session: Option<CaptureSession>,
}

impl AudioCapture {
    /// Whether recording is on.
    pub closed spec fn recording(&self) -> bool {
        self.session is Some
    }

    /// The session while recording is on.
    pub closed spec fn session_view(&self) -> SessionView {
        self.session.unwrap()@
    }

    /// Capture with recording off.
    pub fn new() -> (r: Self)
        ensures
            !r.recording(),
    {
        AudioCapture { session: None }
    }

    /// Whether recording is on.
    pub fn is_recording(&self) -> (r: bool)
        ensures
            r == self.recording(),
    {
        self.session.is_some()
    }

    /// Turns recording on or off and returns the new state. Turning it on
    /// starts a fresh session; turning it off drops the session and any
    /// partial chunk it held, without flushing it.
    pub fn toggle_recording(&mut self) -> (r: bool)
        ensures
            r == !old(self).recording(),
            final(self).recording() == r,
            r ==> final(self).session_view().buffer.len() == 0
                && final(self).session_view().chunk_start is None
                && final(self).session_view().silence_run == 0,
    {
        if self.session.is_some() {
            self.session = None;
            false
        } else {
            self.session = Some(CaptureSession::new());
            true
        }
    }

    /// Takes a block delivered at `now`: ignored while recording is off,
    /// otherwise handed to the session, returning the chunk it flushes.
    pub fn push_frame(&mut self, frame: &[u32], now: u64) -> (r: Option<Vec<u32>>)
        ensures
            final(self).recording() == old(self).recording(),
            !old(self).recording() ==> r is None,
            old(self).recording() ==> final(self).session_view() == step(
                old(self).session_view(),
                frame@,
                now,
            ).0 && chunk_of(r) == step(old(self).session_view(), frame@, now).1,
    {
        match &mut self.session {
            Some(s) => s.push_frame(frame, now),
            None => None,
        }
    }
}

} // verus!
