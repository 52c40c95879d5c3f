use vstd::prelude::*;
use vstd::slice::slice_subrange;
use vstd::string::*;
use vstd::utf8::*;

use crate::config::TelegramConfig;

verus! {

// ---------------------------------------------------------------------------
// Outbound message and its persisted record format.
//
// A record is `chat_id` as four big-endian bytes followed by the text as
// UTF-8; the text's length is implicit (end of record = end of buffer).
// ---------------------------------------------------------------------------

#[derive(Debug)]
pub struct SendMessage {
    pub chat_id: u32,
    pub text: String,
}

/// The four big-endian bytes of a 32-bit chat id.
pub open spec fn be32_bytes(x: u32) -> Seq<u8> {
    seq![
        (x / 0x1000000) as u8,
        ((x / 0x10000) % 0x100) as u8,
        ((x / 0x100) % 0x100) as u8,
        (x % 0x100) as u8,
    ]
}

/// The chat id held by four big-endian bytes.
pub open spec fn be32_val(b: Seq<u8>) -> u32
    recommends
        b.len() == 4,
{
    (b[0] * 0x1000000 + b[1] * 0x10000 + b[2] * 0x100 + b[3]) as u32
}

/// The persisted record of a message.
pub open spec fn encode_message(chat_id: u32, text: Seq<char>) -> Seq<u8> {
    be32_bytes(chat_id) + encode_utf8(text)
}

/// Whether a byte string is a well-formed message record.
pub open spec fn message_bytes_ok(b: Seq<u8>) -> bool {
    b.len() >= 4 && valid_utf8(b.skip(4))
}

/// The chat id and text held by a well-formed record.
pub open spec fn decode_message(b: Seq<u8>) -> (u32, Seq<char>)
    recommends
        message_bytes_ok(b),
{
    (be32_val(b.take(4)), decode_utf8(b.skip(4)))
}

pub proof fn lemma_be32_round_trip(x: u32)
    ensures
        be32_val(be32_bytes(x)) == x,
{
    assert(be32_val(be32_bytes(x)) == x) by (nonlinear_arith);
}

/// Law: encoding a message always yields a well-formed record, and decoding
/// that record yields the same chat id and text.
pub proof fn lemma_message_round_trip(chat_id: u32, text: Seq<char>)
    ensures
        message_bytes_ok(encode_message(chat_id, text)),
        decode_message(encode_message(chat_id, text)) == (chat_id, text),
{
    let b = encode_message(chat_id, text);
    assert(b.take(4) =~= be32_bytes(chat_id));
    assert(b.skip(4) =~= encode_utf8(text));
    encode_utf8_valid_utf8(text);
    lemma_be32_round_trip(chat_id);
    encode_utf8_decode_utf8(text);
}

/// Relies on core::str::from_utf8: it returns `Ok` exactly when the bytes are
/// valid UTF-8, and the resulting `str` is a view of those same bytes.
#[verifier::external_body]
fn from_utf8_opt<'a>(v: &'a [u8]) -> (r: Option<&'a str>)
    ensures
        r is Some <==> valid_utf8(v@),
        r matches Some(s) ==> s.spec_bytes() == v@,
{
    match core::str::from_utf8(v) {
        Ok(s) => Some(s),
        Err(_) => None,
    }
}

impl SendMessage {
    /// Serialize for persistence: big-endian chat id, then the text as UTF-8.
    pub fn into_bytes(self) -> (r: Vec<u8>)
        ensures
            r@ == encode_message(self.chat_id, self.text@),
            message_bytes_ok(r@),
    {
        let mut bytes: Vec<u8> = Vec::new();
        bytes.push((self.chat_id / 0x1000000) as u8);
        bytes.push(((self.chat_id / 0x10000) % 0x100) as u8);
        bytes.push(((self.chat_id / 0x100) % 0x100) as u8);
        bytes.push((self.chat_id % 0x100) as u8);
        let mut text_bytes = self.text.as_str().as_bytes_vec();
        bytes.append(&mut text_bytes);
        proof {
            assert(bytes@ =~= encode_message(self.chat_id, self.text@));
            assert(bytes@.skip(4) =~= encode_utf8(self.text@));
            encode_utf8_valid_utf8(self.text@);
        }
        bytes
    }

    /// Deserialize a record known to be well formed.
    pub fn from_bytes(buf: &[u8]) -> (r: SendMessage)
        requires
            message_bytes_ok(buf@),
        ensures
            r.chat_id == decode_message(buf@).0,
            r.text@ == decode_message(buf@).1,
    {
        let chat_id = (buf[0] as u32) * 0x1000000 + (buf[1] as u32) * 0x10000 + (buf[2] as u32)
            * 0x100 + (buf[3] as u32);
        let tail = slice_subrange(buf, 4, buf.len());
        let s = from_utf8_opt(tail).unwrap();
        proof {
            encode_utf8_decode_utf8(s@);
            assert(be32_val(buf@.take(4)) == chat_id);
        }
        SendMessage { chat_id, text: s.to_owned() }
    }

    /// Deserialize any byte string, rejecting records that are too short or
    /// whose text is not valid UTF-8.
    pub fn try_from_bytes(buf: &[u8]) -> (r: Option<SendMessage>)
        ensures
            r is Some <==> message_bytes_ok(buf@),
            r matches Some(m) ==> m.chat_id == decode_message(buf@).0 && m.text@ == decode_message(
                buf@,
            ).1,
    {
        if buf.len() < 4 {
            return None;
        }
        let tail = slice_subrange(buf, 4, buf.len());
        match from_utf8_opt(tail) {
            None => None,
            Some(_) => Some(SendMessage::from_bytes(buf)),
        }
    }
}

// ---------------------------------------------------------------------------
// Fetch bookkeeping for the remote chat service.
// ---------------------------------------------------------------------------

/// An incoming update as the remote service reports it.
pub struct Updates {
    pub result: Vec<Update>,
}

pub struct Update {
    pub update_id: u32,
    pub message: Message,
}

pub struct Message {
    pub chat: Chat,
    pub text: String,
}

pub struct Chat {
    pub id: u32,
}

/// Tracks which update has been acknowledged, so that a fetch never asks the
/// service to redeliver an update it already handed over.
pub struct TeleAPI<'cfg> {
    pub fetch_limit: usize,
    pub last_updtid: u32,
    pub config: &'cfg TelegramConfig,
}

impl<'cfg> TeleAPI<'cfg> {
    pub fn new(config: &'cfg TelegramConfig, fetch_limit: usize) -> (r: Self)
        ensures
            r.fetch_limit == fetch_limit,
            r.last_updtid == 0,
            r.config == config,
    {
        Self { fetch_limit, last_updtid: 0, config }
    }

    /// Record that every update up to `update_id` has been received, so that
    /// later fetches skip past it.
    pub fn acknowledge(&mut self, update_id: u32)
        ensures
            final(self).last_updtid == update_id,
            final(self).fetch_limit == old(self).fetch_limit,
            final(self).config == old(self).config,
    {
        self.last_updtid = update_id;
    }

    /// The offset a fetch must pass so acknowledged updates are not
    /// redelivered: one past the last acknowledged id, or nothing before the
    /// first acknowledgement.
    pub fn fetch_offset(&self) -> (r: Option<u32>)
        requires
            self.last_updtid < u32::MAX,
        ensures
            self.last_updtid == 0 ==> r is None,
            self.last_updtid != 0 ==> r == Some((self.last_updtid + 1) as u32),
    {
        if self.last_updtid == 0 {
            None
        } else {
            Some(self.last_updtid + 1)
        }
    }
}

} // verus!
