//! The control channel's reply: each message read from a connection is
//! answered with a fixed markdown text that quotes the message and gives its
//! length in bytes.
use vstd::prelude::*;

use crate::text::{digits, push_padded};
use vstd::string::StringSliceAdditionalSpecFns;

verus! {

/// Text before the quoted message.
pub const RESPONSE_HEAD: &'static str = "**Received your message:**\n```\n";

/// Text between the quoted message and its length.
pub const RESPONSE_MID: &'static str = "\n```\n\nHere's a sample response:\n\n# Lorem Ipsum\n## About this text\nLorem ipsum dolor sit amet, *consectetur* adipiscing elit. Sed do **eiusmod** tempor incididunt ut labore et dolore magna aliqua.\n\n- Point 1\n- Point 2\n- Point 3\n\n> This is a blockquote with your message length: ";

/// Text after the length.
pub const RESPONSE_TAIL: &'static str = " bytes\n";

/// The UTF-8 text of `b` with every invalid sequence replaced by U+FFFD.
pub uninterp spec fn lossy_utf8(b: Seq<u8>) -> Seq<u8>;

/// Relies on `String::from_utf8_lossy`: the bytes as text, each invalid
/// sequence replaced by U+FFFD, valid UTF-8 passed through unchanged.
#[verifier::external_body]
fn utf8_lossy(b: &[u8]) -> (r: Vec<u8>)
    ensures
        r@ == lossy_utf8(b@),
        vstd::utf8::valid_utf8(b@) ==> r@ == b@,
{
    String::from_utf8_lossy(b).into_owned().into_bytes()
}

/// The reply that quotes `text` and reports `length` bytes.
pub open spec fn response_text(text: Seq<u8>, length: u64) -> Seq<u8> {
    RESPONSE_HEAD.spec_bytes() + text + RESPONSE_MID.spec_bytes() + digits(length as nat)
        + RESPONSE_TAIL.spec_bytes()
}

fn push_str(out: &mut Vec<u8>, s: &str)
    ensures
        final(out)@ == old(out)@ + s.spec_bytes(),
{
    let mut b = vstd::slice::slice_to_vec(s.as_bytes());
    out.append(&mut b);
}

/// Lays out the reply around text that is already decoded.
pub fn render_response(text: &[u8], length: u64) -> (r: Vec<u8>)
    ensures
        r@ == response_text(text@, length),
{
    let mut r: Vec<u8> = Vec::new();
    push_str(&mut r, RESPONSE_HEAD);
    let mut t = vstd::slice::slice_to_vec(text);
    r.append(&mut t);
    push_str(&mut r, RESPONSE_MID);
    push_padded(&mut r, length, 1);
    proof {
        crate::text::lemma_padded_width_one(length as nat);
    }
    push_str(&mut r, RESPONSE_TAIL);
    proof {
        assert(r@ =~= response_text(text@, length));
    }
    r
}

/// The reply to a message of `length` bytes: the message is quoted as text.
pub fn create_response(message: &[u8], length: u64) -> (r: Vec<u8>)
    ensures
        r@ == response_text(lossy_utf8(message@), length),
        vstd::utf8::valid_utf8(message@) ==> r@ == response_text(message@, length),
{
    let text = utf8_lossy(message);
    render_response(&text, length)
}

/// One connection of the control channel: it answers each read until the
/// peer closes, and counts the bytes it has read.
pub struct ConnectionHandler {
    total_bytes_read: u64,
}

impl ConnectionHandler {
    /// Bytes read from the connection so far (held at `u64::MAX` at most).
    pub closed spec fn total(&self) -> u64 {
        self.total_bytes_read
    }

    /// A connection with nothing read yet.
    pub fn new() -> (r: Self)
        ensures
            r.total() == 0,
    {
        ConnectionHandler { total_bytes_read: 0 }
    }

    /// Bytes read from the connection so far.
    pub fn total_bytes_read(&self) -> (r: u64)
        ensures
            r == self.total(),
    {
        self.total_bytes_read
    }

    /// Takes what one read returned. An empty read means the peer closed:
    /// there is no reply and the connection ends. Otherwise the reply to the
    /// message is returned.
    pub fn process(&mut self, data: &[u8]) -> (r: Option<Vec<u8>>)
        ensures
            data@.len() == 0 ==> r is None && final(self).total() == old(self).total(),
            data@.len() > 0 ==> r is Some && r.unwrap()@ == response_text(
                lossy_utf8(data@),
                data@.len() as u64,
            ) && final(self).total() == if old(self).total() + data@.len() > u64::MAX {
                u64::MAX as int
            } else {
                old(self).total() + data@.len()
            },
    {
        if data.len() == 0 {
            return None;
        }
        let n: u64 = data.len() as u64;
        let reply = create_response(data, n);
        self.total_bytes_read = self.total_bytes_read.saturating_add(n);
        Some(reply)
    }
}

} // verus!
