//! SyncClock: type 26, payload
//! `seq_num:u8 | epoch_sec:u32 | zone_offset:u8 | u8n(tz)`.

use vstd::prelude::*;
use vstd::utf8::encode_utf8;

use crate::error::DecodeError;
use crate::msg::layout::MessageView;
use crate::msg::{decoded, Message};
use crate::wire::{
    be32, be32_bytes, lemma_be32_of_bytes, lemma_text_field_of_encoded, read_be32, read_text,
    text_field,
};

verus! {

/// The payload of a clock message.
pub open spec fn payload(seq_num: u8, epoch_time_sec: u32, zone_offset: u8, tz: Seq<char>) -> Seq<
    u8,
> {
    seq![seq_num] + be32_bytes(epoch_time_sec) + seq![zone_offset, encode_utf8(tz).len() as u8]
        + encode_utf8(tz)
}

/// The message that a payload stands for.
pub open spec fn parse(p: Seq<u8>) -> Result<MessageView, DecodeError> {
    if p.len() < 7 {
        Err(DecodeError::Framing)
    } else {
        match text_field(p, 7, p[6] as int) {
            Ok(tz) => Ok(
                MessageView::SyncClock {
                    seq_num: p[0],
                    epoch_time_sec: be32(p[1], p[2], p[3], p[4]),
                    zone_offset: p[5],
                    tz,
                },
            ),
            Err(detail) => Err(DecodeError::MalformedPayload { msg_type: 26, detail }),
        }
    }
}

/// Reads a SyncClock from its payload.
pub fn new(payload: Vec<u8>) -> (r: Result<Message, DecodeError>)
    ensures
        decoded(r) == parse(payload@),
{
    if payload.len() < 7 {
        return Err(DecodeError::Framing);
    }
    let seq_num: u8 = payload[0];
    let epoch_time_sec: u32 = read_be32(payload[1], payload[2], payload[3], payload[4]);
    let zone_offset: u8 = payload[5];
    let len: usize = payload[6] as usize;
    match read_text(payload.as_slice(), 7, len) {
        Ok(tz) => Ok(Message::SyncClock { seq_num, epoch_time_sec, zone_offset, tz }),
        Err(detail) => Err(DecodeError::MalformedPayload { msg_type: 26, detail }),
    }
}

/// Reading the payload of a clock message whose zone name fits gives the
/// message back.
pub proof fn lemma_roundtrip(seq_num: u8, epoch_time_sec: u32, zone_offset: u8, tz: Seq<char>)
    requires
        encode_utf8(tz).len() <= u8::MAX,
    ensures
        parse(payload(seq_num, epoch_time_sec, zone_offset, tz)) == Ok::<MessageView, DecodeError>(
            MessageView::SyncClock { seq_num, epoch_time_sec, zone_offset, tz },
        ),
{
    let p = payload(seq_num, epoch_time_sec, zone_offset, tz);
    let n = encode_utf8(tz).len() as int;
    lemma_be32_of_bytes(epoch_time_sec);
    assert(p.subrange(7, 7 + n) =~= encode_utf8(tz));
    lemma_text_field_of_encoded(p, 7, tz);
}

} // verus!
