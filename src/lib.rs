//! A voice pipeline's core: the client cuts the microphone stream into
//! utterance-sized chunks and sends them as datagrams of raw little-endian
//! float samples; the server reassembles each sender's samples, forgets
//! senders that fall silent, and lays finished buffers out as WAV files.
//!
//! Everything here works on plain values: samples are the bit patterns of
//! 32-bit floats, times are milliseconds, senders are addresses held as
//! integers. Sockets, devices, files and tasks belong to the caller.
use vstd::prelude::*;

pub mod capture;
pub mod codec;
pub mod dispatch;
pub mod fragment;
pub mod reassembly;
pub mod responder;
pub mod text;
pub mod wav;
pub mod window;

verus! {

} // verus!
