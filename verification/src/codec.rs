//! The accumulation buffer between the transport and the decoder.
//!
//! The transport hands over bytes as they come, in pieces of any size. The
//! codec appends them to what it holds, decodes from the start, and on a
//! match drops exactly the telegram, so that whatever followed it is the
//! start of the next exchange.

use crate::decode::{response, Decoded};
use crate::encode::push_bytes;
use crate::grammar::spec_response;
use crate::streaming::{leftover, lemma_response_grows};
use vstd::prelude::*;

verus! {

/// The bytes received and not yet consumed into a telegram.
pub struct TelegramCodec {
    unparsed: Vec<u8>,
}

impl View for TelegramCodec {
    type V = Seq<u8>;

    closed spec fn view(&self) -> Seq<u8> {
        self.unparsed@
    }
}

impl TelegramCodec {
    /// A codec that holds no bytes.
    pub fn new() -> (codec: TelegramCodec)
        ensures
            codec@ == Seq::<u8>::empty(),
    {
        TelegramCodec { unparsed: Vec::new() }
    }

    /// The bytes held.
    pub fn unparsed(&self) -> (bytes: &[u8])
        ensures
            bytes@ == self@,
    {
        self.unparsed.as_slice()
    }

    /// Appends `received` to the bytes held and decodes from their start.
    ///
    /// On a match the telegram is dropped from the buffer and the bytes
    /// behind it are kept; otherwise the buffer keeps everything.
    pub fn feed(&mut self, received: &[u8]) -> (decoded: Decoded)
        ensures
            decoded@ == spec_response(old(self)@ + received@),
            final(self)@ == leftover(old(self)@ + received@),
    {
        push_bytes(&mut self.unparsed, received);
        let decoded = response(self.unparsed.as_slice());
        proof {
            lemma_response_grows(self.unparsed@, Seq::<u8>::empty());
        }
        match decoded {
            Decoded::Matched(reply, consumed) => {
                let rest = self.unparsed.split_off(consumed);
                self.unparsed = rest;
                assert(self.unparsed@ =~= (old(self)@ + received@).skip(consumed as int));
                Decoded::Matched(reply, consumed)
            },
            Decoded::Incomplete => Decoded::Incomplete,
            Decoded::NoMatch => Decoded::NoMatch,
        }
    }
}

} // verus!
