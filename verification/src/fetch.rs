//! Fetching a capability string over DDC/CI, fragment by fragment.
//!
//! The transport (write a request, wait, read a reply) belongs to the
//! platform backend; this module decides what to send next and when the
//! string is complete. A backend drives it as:
//! `let mut step = reader.start(); loop { match step { Request(frame) => { write; read; step = reader.on_reply(&raw) } ... } }`.

use vstd::prelude::*;

use crate::caps::{capabilities_of, parse, Capabilities};
use crate::ddc::{
    be16, capabilities_reply_fault, capabilities_reply_malformed, capabilities_request_frame,
    decode_capabilities_reply, encode_capabilities_request, reply_len,
};
use crate::error::{error_is, Error};
use vstd::utf8::{decode_utf8, valid_utf8};

verus! {

/// The text that `String::from_utf8_lossy` decodes from a byte sequence
/// (invalid sequences become U+FFFD).
pub uninterp spec fn utf8_lossy(b: Seq<u8>) -> Seq<char>;

/// `String::from_utf8_lossy`, owned. The contract states that the result is
/// the decoding named by `utf8_lossy` and, as the function's documentation
/// says, that valid UTF-8 decodes to exactly its characters; how invalid
/// sequences are replaced is left to the name.
#[verifier::external_body]
pub(crate) fn string_from_utf8_lossy(b: &[u8]) -> (s: String)
    ensures
        s@ == utf8_lossy(b@),
        valid_utf8(b@) ==> s@ == decode_utf8(b@),
{
    String::from_utf8_lossy(b).into_owned()
}

/// The most fragments requested for one capability string.
pub const MAX_FRAGMENTS: u8 = 64;

/// What the backend does next.
pub enum CapabilityStep {
    /// Write this Capabilities Request frame, wait, and read a reply.
    Request([u8; 6]),
    /// The string is complete.
    Done(Capabilities),
    /// The reply could not be decoded.
    Failed(Error),
}

/// The state of a capability-string fetch: the bytes received so far and
/// the number of fragments received.
pub struct CapabilityReader {
    offset: u16,
    data: Vec<u8>,
    rounds: u8,
}

impl CapabilityReader {
    /// Bytes of the capability string received so far.
    pub closed spec fn received(&self) -> Seq<u8> {
        self.data@
    }

    /// Number of non-empty fragments received so far.
    pub closed spec fn fragments(&self) -> nat {
        self.rounds as nat
    }

    /// The offset that the next request asks for.
    pub closed spec fn next_offset(&self) -> u16 {
        self.offset
    }

    pub closed spec fn wf(&self) -> bool {
        &&& self.rounds < MAX_FRAGMENTS
        &&& self.data@.len() <= 124 * self.rounds
        &&& self.offset as int == self.data@.len()
    }

    pub fn new() -> (r: Self)
        ensures
            r.wf(),
            r.received() == Seq::<u8>::empty(),
            r.fragments() == 0,
            r.next_offset() == 0,
    {
        CapabilityReader { offset: 0, data: Vec::new(), rounds: 0 }
    }

    /// The first request: the fragment at offset 0.
    pub fn start(&self) -> (step: CapabilityStep)
        requires
            self.wf(),
        ensures
            step matches CapabilityStep::Request(f) && f@ == capabilities_request_frame(
                self.next_offset(),
            ),
    {
        CapabilityStep::Request(encode_capabilities_request(self.offset))
    }

    /// Take the display's reply to the last request. An empty fragment ends
    /// the string, as does the 64th fragment; the string is then decoded as
    /// UTF-8 (lossily) and parsed.
    pub fn on_reply(&mut self, raw: &[u8]) -> (step: CapabilityStep)
        requires
            old(self).wf(),
            !capabilities_reply_malformed(raw@),
        ensures
            match step {
                CapabilityStep::Failed(e) => {
                    &&& capabilities_reply_fault(raw@) matches Some(f) && error_is(e, f)
                    &&& *final(self) == *old(self)
                },
                CapabilityStep::Done(c) => {
                    let payload = raw@.subrange(5, 2 + reply_len(raw@));
                    &&& capabilities_reply_fault(raw@) is None
                    &&& payload.len() == 0 ==> c@ == capabilities_of(utf8_lossy(old(self).received()))
                    &&& payload.len() > 0 ==> old(self).fragments() + 1 == MAX_FRAGMENTS
                        && c@ == capabilities_of(utf8_lossy(old(self).received() + payload))
                },
                CapabilityStep::Request(f) => {
                    let payload = raw@.subrange(5, 2 + reply_len(raw@));
                    &&& capabilities_reply_fault(raw@) is None
                    &&& payload.len() > 0
                    &&& final(self).wf()
                    &&& final(self).received() == old(self).received() + payload
                    &&& final(self).fragments() == old(self).fragments() + 1
                    &&& final(self).next_offset() as int == final(self).received().len()
                    &&& f@ == capabilities_request_frame(final(self).next_offset())
                },
            },
    {
        let frag = match decode_capabilities_reply(raw) {
            Ok(frag) => frag,
            Err(e) => return CapabilityStep::Failed(e),
        };
        if frag.data.len() == 0 {
            let s = string_from_utf8_lossy(self.data.as_slice());
            return CapabilityStep::Done(parse(s.as_str()));
        }
        proof {
            assert(frag.data@.len() <= 124) by {
                let b = raw@[1];
                assert(b & 0x7F <= 0x7F) by (bit_vector);
            }
        }
        self.offset = self.offset + frag.data.len() as u16;
        let mut more = frag.data;
        self.data.append(&mut more);
        self.rounds = self.rounds + 1;
        if self.rounds == MAX_FRAGMENTS {
            let s = string_from_utf8_lossy(self.data.as_slice());
            return CapabilityStep::Done(parse(s.as_str()));
        }
        CapabilityStep::Request(encode_capabilities_request(self.offset))
    }
}

/// Whether a reply would make [`decode_capabilities_reply`] slice its payload
/// backwards (see [`capabilities_reply_malformed`]).
pub fn is_malformed_capabilities_reply(raw: &[u8]) -> (b: bool)
    ensures
        b == capabilities_reply_malformed(raw@),
{
    match decode_capabilities_reply_header(raw) {
        Some(len) => len < 3,
        None => false,
    }
}

/// The length field of a reply that passes every check of
/// [`decode_capabilities_reply`]; `None` for one that it rejects.
fn decode_capabilities_reply_header(raw: &[u8]) -> (r: Option<usize>)
    ensures
        r is Some <==> capabilities_reply_fault(raw@) is None,
        r matches Some(len) ==> len == reply_len(raw@),
{
    if raw.len() < 6 || raw[0] != crate::ddc::DISPLAY_SRC {
        return None;
    }
    let len = (raw[1] & 0x7F) as usize;
    if raw.len() < 2 + len + 1 || raw[2] != crate::ddc::OPCODE_CAP_REPLY {
        return None;
    }
    if crate::ddc::reply_checksum(&raw[0..2 + len]) != raw[2 + len] {
        proof {
            let t = raw@.take(2 + len + 1);
            assert(t.drop_last() =~= raw@.subrange(0, 2 + len as int));
        }
        return None;
    }
    proof {
        let t = raw@.take(2 + len + 1);
        assert(t.drop_last() =~= raw@.subrange(0, 2 + len as int));
    }
    Some(len)
}

} // verus!
