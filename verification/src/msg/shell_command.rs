//! ShellCommand: type 80, payload `command_id:u8 | u16n(command)`.

use vstd::prelude::*;
use vstd::utf8::encode_utf8;

use crate::error::DecodeError;
use crate::msg::layout::MessageView;
use crate::msg::{decoded, Message};
use crate::wire::{
    be16, be16_bytes, lemma_be16_of_bytes, lemma_text_field_of_encoded, read_be16, read_text,
    text_field,
};

verus! {

/// The payload of a shell command.
pub open spec fn payload(command: Seq<char>, command_id: u8) -> Seq<u8> {
    seq![command_id] + be16_bytes(encode_utf8(command).len() as u16) + encode_utf8(command)
}

/// The message that a payload stands for.
pub open spec fn parse(p: Seq<u8>) -> Result<MessageView, DecodeError> {
    if p.len() < 3 {
        Err(DecodeError::Framing)
    } else {
        match text_field(p, 3, be16(p[1], p[2]) as int) {
            Ok(command) => Ok(MessageView::ShellCommand { command, command_id: p[0] }),
            Err(detail) => Err(DecodeError::MalformedPayload { msg_type: 80, detail }),
        }
    }
}

/// Reads a ShellCommand from its payload.
pub fn new(payload: Vec<u8>) -> (r: Result<Message, DecodeError>)
    ensures
        decoded(r) == parse(payload@),
{
    if payload.len() < 3 {
        return Err(DecodeError::Framing);
    }
    let command_id: u8 = payload[0];
    let len: usize = read_be16(payload[1], payload[2]) as usize;
    match read_text(payload.as_slice(), 3, len) {
        Ok(command) => Ok(Message::ShellCommand { command, command_id }),
        Err(detail) => Err(DecodeError::MalformedPayload { msg_type: 80, detail }),
    }
}

/// Reading the payload of a command that fits gives the command back.
pub proof fn lemma_roundtrip(command: Seq<char>, command_id: u8)
    requires
        encode_utf8(command).len() <= u16::MAX,
    ensures
        parse(payload(command, command_id)) == Ok::<MessageView, DecodeError>(
            MessageView::ShellCommand { command, command_id },
        ),
{
    let p = payload(command, command_id);
    let n = encode_utf8(command).len() as int;
    lemma_be16_of_bytes(n as u16);
    assert(p.subrange(3, 3 + n) =~= encode_utf8(command));
    lemma_text_field_of_encoded(p, 3, command);
}

} // verus!
