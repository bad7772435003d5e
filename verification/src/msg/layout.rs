//! The wire table: which bytes a message becomes and which message bytes stand
//! for, stated over mathematical sequences.

use vstd::prelude::*;
use vstd::utf8::encode_utf8;

use crate::checksum::checksum;
use crate::error::{DecodeError, IoCause};
use crate::msg::app_running::AppRunningReason;
use crate::msg::content::PayloadType;
use crate::wire::{be16, be16_bytes};

verus! {

/// A message as a mathematical value: texts are sequences of characters and
/// byte strings are sequences of bytes.
pub enum MessageView {
    AckContent { content_id: u16, error: u8 },
    Ping { seq_num: u8 },
    Pong { seq_num: u8 },
    AppRunning { seq_num: u8, reason: AppRunningReason },
    Reboot,
    DebugMsg { msg: Seq<char> },
    ShellCommand { command: Seq<char>, command_id: u8 },
    ContentMsg {
        content_id: u16,
        content_channel: u8,
        count_impressions: bool,
        display_indefinitely: bool,
        booking_id: u16,
        priority: u16,
        payloads: Seq<(PayloadType, Seq<u8>)>,
    },
    ContentDelete { content_id: u16 },
    SyncClock { seq_num: u8, epoch_time_sec: u32, zone_offset: u8, tz: Seq<char> },
    FirmwareCode { seq: u8, dest_addr: u16, num_bytes: u16, code_chunk: Seq<u8> },
    AuthRequest { method: u8 },
    AuthConfirm { conf_code: u8, address: Seq<u8>, port: u16 },
    GetCfgParam { param: u8 },
    AckGetCfgParam { param: u8, error: u8, value: u8 },
    SetCfgParam { param: u8, value: u8 },
    AckSetCfgParam { param: u8, error: u8, value: u8 },
    ResetCfgParams,
    AckResetCfgParams,
    StopCfg {
        stop_id: u8,
        title: Seq<char>,
        phoneme: Seq<char>,
        route_tag: Seq<char>,
        snd_md5: Seq<char>,
        snd_url: Seq<char>,
        zero_countdown_msg: Seq<char>,
    },
    AckStopCfg { stop_id: u8, error: u8 },
    ClearStopCfg,
    AckClearStopCfg,
}

/// Bytes of a frame that are not payload: type, length and checksum.
pub const FRAME_OVERHEAD: usize = 5;

/// Bytes of a frame in front of the payload: type and length.
pub const HEADER_LEN: usize = 3;

/// The greatest number of payload bytes that a frame can carry.
pub const MAX_PAYLOAD_LEN: usize = 65530;

impl MessageView {
    /// The type byte that announces the message on the wire.
    pub open spec fn type_code(self) -> u8 {
        match self {
            MessageView::Reboot => 6,
            MessageView::AppRunning { .. } => 8,
            MessageView::Ping { .. } => 10,
            MessageView::Pong { .. } => 11,
            MessageView::StopCfg { .. } => 14,
            MessageView::AckStopCfg { .. } => 15,
            MessageView::ClearStopCfg => 16,
            MessageView::AckClearStopCfg => 17,
            MessageView::SetCfgParam { .. } => 18,
            MessageView::AckSetCfgParam { .. } => 19,
            MessageView::GetCfgParam { .. } => 20,
            MessageView::AckGetCfgParam { .. } => 21,
            MessageView::ResetCfgParams => 22,
            MessageView::AckResetCfgParams => 23,
            MessageView::SyncClock { .. } => 26,
            MessageView::DebugMsg { .. } => 28,
            MessageView::FirmwareCode { .. } => 31,
            MessageView::ContentMsg { .. } => 32,
            MessageView::AckContent { .. } => 33,
            MessageView::ContentDelete { .. } => 36,
            MessageView::AuthRequest { .. } => 50,
            MessageView::AuthConfirm { .. } => 52,
            MessageView::ShellCommand { .. } => 80,
        }
    }

    /// The payload bytes of the message.
    pub open spec fn payload(self) -> Seq<u8> {
        match self {
            MessageView::Reboot => Seq::empty(),
            MessageView::AppRunning { seq_num, reason } => seq![seq_num, reason.wire_code()],
            MessageView::Ping { seq_num } => seq![seq_num],
            MessageView::Pong { seq_num } => seq![seq_num],
            MessageView::StopCfg {
                stop_id,
                title,
                phoneme,
                route_tag,
                snd_md5,
                snd_url,
                zero_countdown_msg,
            } => crate::msg::stop_cfg::payload(
                stop_id,
                title,
                phoneme,
                route_tag,
                snd_md5,
                snd_url,
                zero_countdown_msg,
            ),
            MessageView::AckStopCfg { stop_id, error } => seq![stop_id, error],
            MessageView::ClearStopCfg => Seq::empty(),
            MessageView::AckClearStopCfg => Seq::empty(),
            MessageView::SetCfgParam { param, value } => seq![param, value],
            MessageView::AckSetCfgParam { param, error, value } => seq![param, error, value],
            MessageView::GetCfgParam { param } => seq![param],
            MessageView::AckGetCfgParam { param, error, value } => seq![param, error, value],
            MessageView::ResetCfgParams => Seq::empty(),
            MessageView::AckResetCfgParams => Seq::empty(),
            MessageView::SyncClock { seq_num, epoch_time_sec, zone_offset, tz } => {
                crate::msg::sync_clock::payload(seq_num, epoch_time_sec, zone_offset, tz)
            },
            MessageView::DebugMsg { msg } => crate::msg::debug::payload(msg),
            MessageView::FirmwareCode { seq, dest_addr, num_bytes, code_chunk } => {
                crate::msg::firmware_code::payload(seq, dest_addr, num_bytes, code_chunk)
            },
            MessageView::ContentMsg {
                content_id,
                content_channel,
                count_impressions,
                display_indefinitely,
                booking_id,
                priority,
                payloads,
            } => crate::msg::content::payload(
                content_id,
                content_channel,
                count_impressions,
                display_indefinitely,
                booking_id,
                priority,
                payloads,
            ),
            MessageView::AckContent { content_id, error } => be16_bytes(content_id) + seq![error],
            MessageView::ContentDelete { content_id } => be16_bytes(content_id),
            MessageView::AuthRequest { method } => seq![method],
            MessageView::AuthConfirm { conf_code, address, port } => seq![conf_code] + address
                + be16_bytes(port),
            MessageView::ShellCommand { command, command_id } => {
                crate::msg::shell_command::payload(command, command_id)
            },
        }
    }

    /// Every variable-length field has a length that its length prefix can
    /// hold, and every field of fixed size has that size.
    pub open spec fn fields_fit(self) -> bool {
        match self {
            MessageView::ShellCommand { command, .. } => encode_utf8(command).len() <= u16::MAX,
            MessageView::ContentMsg { payloads, .. } => {
                &&& payloads.len() <= u8::MAX
                &&& forall|i: int|
                    0 <= i < payloads.len() ==> (#[trigger] payloads[i]).1.len() <= u16::MAX
            },
            MessageView::SyncClock { tz, .. } => encode_utf8(tz).len() <= u8::MAX,
            MessageView::FirmwareCode { num_bytes, code_chunk, .. } => code_chunk.len()
                == num_bytes,
            MessageView::AuthConfirm { address, .. } => address.len() == 4,
            MessageView::StopCfg {
                title,
                phoneme,
                route_tag,
                snd_md5,
                snd_url,
                zero_countdown_msg,
                ..
            } => {
                &&& encode_utf8(title).len() <= u8::MAX
                &&& encode_utf8(phoneme).len() <= u8::MAX
                &&& encode_utf8(route_tag).len() <= u8::MAX
                &&& encode_utf8(snd_md5).len() <= u8::MAX
                &&& encode_utf8(snd_url).len() <= u8::MAX
                &&& encode_utf8(zero_countdown_msg).len() <= u8::MAX
            },
            _ => true,
        }
    }

    /// The message can be put on the wire: its fields fit, and so does the
    /// frame's own length field.
    pub open spec fn wf(self) -> bool {
        &&& self.fields_fit()
        &&& self.payload().len() <= MAX_PAYLOAD_LEN
    }

    /// The frame that carries the message.
    pub open spec fn frame(self) -> Seq<u8> {
        frame_of(self.type_code(), self.payload())
    }
}

/// Type byte, length and payload: the part of a frame that the checksum
/// covers.
pub open spec fn frame_head(t: u8, payload: Seq<u8>) -> Seq<u8> {
    seq![t] + be16_bytes((payload.len() + FRAME_OVERHEAD) as u16) + payload
}

/// The frame of type `t` around `payload`.
pub open spec fn frame_of(t: u8, payload: Seq<u8>) -> Seq<u8> {
    frame_head(t, payload) + be16_bytes(checksum(frame_head(t, payload)))
}

/// Whether `t` is a type byte of the registry.
pub open spec fn known_type(t: u8) -> bool {
    t == 6 || t == 8 || t == 10 || t == 11 || (14 <= t <= 23) || t == 26 || t == 28 || t == 31
        || t == 32 || t == 33 || t == 36 || t == 50 || t == 52 || t == 80
}

/// The message that a payload of type `t` stands for.
pub open spec fn parse_payload(t: u8, p: Seq<u8>) -> Result<MessageView, DecodeError> {
    if t == 6 {
        Ok(MessageView::Reboot)
    } else if t == 8 {
        crate::msg::app_running::parse(p)
    } else if t == 10 {
        crate::msg::ping::parse(p)
    } else if t == 11 {
        crate::msg::pong::parse(p)
    } else if t == 14 {
        crate::msg::stop_cfg::parse(p)
    } else if t == 15 {
        crate::msg::stop_cfg::parse_ack(p)
    } else if t == 16 {
        Ok(MessageView::ClearStopCfg)
    } else if t == 17 {
        Ok(MessageView::AckClearStopCfg)
    } else if t == 18 {
        crate::msg::cfg_params::parse_set(p)
    } else if t == 19 {
        crate::msg::cfg_params::parse_set_ack(p)
    } else if t == 20 {
        crate::msg::cfg_params::parse_get(p)
    } else if t == 21 {
        crate::msg::cfg_params::parse_get_ack(p)
    } else if t == 22 {
        Ok(MessageView::ResetCfgParams)
    } else if t == 23 {
        Ok(MessageView::AckResetCfgParams)
    } else if t == 26 {
        crate::msg::sync_clock::parse(p)
    } else if t == 28 {
        crate::msg::debug::parse(p)
    } else if t == 31 {
        crate::msg::firmware_code::parse(p)
    } else if t == 32 {
        crate::msg::content::parse(p)
    } else if t == 33 {
        crate::msg::ack_content::parse(p)
    } else if t == 36 {
        crate::msg::content_delete::parse(p)
    } else if t == 50 {
        crate::msg::auth_request::parse(p)
    } else if t == 52 {
        crate::msg::auth_confirm::parse(p)
    } else if t == 80 {
        crate::msg::shell_command::parse(p)
    } else {
        Err(DecodeError::UnknownType(t))
    }
}

/// The outcome of decoding the frame at the front of `bytes`. Bytes behind
/// that frame play no part.
pub open spec fn parse_frame(bytes: Seq<u8>) -> Result<MessageView, DecodeError> {
    if bytes.len() < HEADER_LEN {
        Err(DecodeError::Io(IoCause::UnexpectedEof))
    } else {
        let len = be16(bytes[1], bytes[2]) as int;
        if len < FRAME_OVERHEAD {
            Err(DecodeError::Framing)
        } else if bytes.len() < len {
            Err(DecodeError::Io(IoCause::UnexpectedEof))
        } else {
            let declared = be16(bytes[len - 2], bytes[len - 1]);
            let computed = checksum(bytes.subrange(0, len - 2));
            if declared != computed {
                Err(DecodeError::ChecksumMismatch { declared, computed })
            } else {
                parse_payload(bytes[0], bytes.subrange(HEADER_LEN as int, len - 2))
            }
        }
    }
}

} // verus!
