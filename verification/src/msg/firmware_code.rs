//! FirmwareCode: type 31, payload
//! `seq:u8 | dest_addr:u16 | num_bytes:u16 | code_chunk[num_bytes]`.

use vstd::prelude::*;
use vstd::slice::{slice_subrange, slice_to_vec};

use crate::error::{DecodeError, PayloadFault};
use crate::msg::layout::MessageView;
use crate::msg::{decoded, Message};
use crate::wire::{be16, be16_bytes, lemma_be16_of_bytes, read_be16};

verus! {

/// The payload of a firmware chunk.
pub open spec fn payload(seq: u8, dest_addr: u16, num_bytes: u16, code_chunk: Seq<u8>) -> Seq<u8> {
    seq![seq] + be16_bytes(dest_addr) + be16_bytes(num_bytes) + code_chunk
}

/// The chunk is all that follows the five leading bytes, and `num_bytes` must
/// say how long that is.
pub open spec fn parse(p: Seq<u8>) -> Result<MessageView, DecodeError> {
    if p.len() < 5 {
        Err(DecodeError::Framing)
    } else if p.len() - 5 != be16(p[3], p[4]) {
        Err(DecodeError::MalformedPayload { msg_type: 31, detail: PayloadFault::LengthMismatch })
    } else {
        Ok(
            MessageView::FirmwareCode {
                seq: p[0],
                dest_addr: be16(p[1], p[2]),
                num_bytes: be16(p[3], p[4]),
                code_chunk: p.skip(5),
            },
        )
    }
}

/// Reads a FirmwareCode from its payload.
pub fn new(payload: Vec<u8>) -> (r: Result<Message, DecodeError>)
    ensures
        decoded(r) == parse(payload@),
{
    if payload.len() < 5 {
        return Err(DecodeError::Framing);
    }
    let seq: u8 = payload[0];
    let dest_addr: u16 = read_be16(payload[1], payload[2]);
    let num_bytes: u16 = read_be16(payload[3], payload[4]);
    if payload.len() - 5 != num_bytes as usize {
        return Err(
            DecodeError::MalformedPayload { msg_type: 31, detail: PayloadFault::LengthMismatch },
        );
    }
    let code_chunk = slice_to_vec(slice_subrange(payload.as_slice(), 5, payload.len()));
    assert(code_chunk@ =~= payload@.skip(5));
    Ok(Message::FirmwareCode { seq, dest_addr, num_bytes, code_chunk })
}

/// Reading the payload of a chunk whose length is `num_bytes` gives the
/// message back.
pub proof fn lemma_roundtrip(seq: u8, dest_addr: u16, num_bytes: u16, code_chunk: Seq<u8>)
    requires
        code_chunk.len() == num_bytes,
    ensures
        parse(payload(seq, dest_addr, num_bytes, code_chunk)) == Ok::<MessageView, DecodeError>(
            MessageView::FirmwareCode { seq, dest_addr, num_bytes, code_chunk },
        ),
{
    let p = payload(seq, dest_addr, num_bytes, code_chunk);
    lemma_be16_of_bytes(dest_addr);
    lemma_be16_of_bytes(num_bytes);
    assert(p.skip(5) =~= code_chunk);
}

} // verus!
