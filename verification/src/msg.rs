//! The messages of the protocol, as values and on the wire.

pub mod ack_content;
pub mod app_running;
pub mod auth_confirm;
pub mod auth_request;
pub mod cfg_params;
pub mod content;
pub mod content_delete;
pub mod debug;
pub mod firmware_code;
pub mod laws;
pub mod layout;
pub mod ping;
pub mod pong;
pub mod reboot;
pub mod shell_command;
pub mod stop_cfg;
pub mod sync_clock;

use vstd::prelude::*;
use vstd::slice::{slice_subrange, slice_to_vec};

use crate::checksum::{absorb_byte, checksum, CHECKSUM_INIT};
use crate::error::IoCause;
use crate::msg::content::{payloads_fit, push_items};
use crate::msg::layout::{frame_head, parse_frame, FRAME_OVERHEAD, HEADER_LEN, MAX_PAYLOAD_LEN};
use crate::wire::{be16, push_be16, push_be32, push_bytes, push_text, read_be16, text_len};

pub use crate::error::DecodeError;
pub use crate::msg::app_running::AppRunningReason;
pub use crate::msg::content::PayloadType;
pub use crate::msg::layout::MessageView;

verus! {

/// One message of the protocol. A value holds the meaning of a message only:
/// length prefixes, flag bits and kind tags belong to the wire form.
#[derive(Debug, Clone, PartialEq, Eq)]
pub enum Message {
    AckContent { content_id: u16, error: u8 },
    Ping { seq_num: u8 },
    Pong { seq_num: u8 },
    AppRunning { seq_num: u8, reason: AppRunningReason },
    Reboot,
    DebugMsg { msg: String },
    ShellCommand { command: String, command_id: u8 },
    ContentMsg {
        content_id: u16,
        content_channel: u8,
        count_impressions: bool,
        display_indefinitely: bool,
        booking_id: u16,
        priority: u16,
        payloads: Vec<(PayloadType, Vec<u8>)>,
    },
    ContentDelete { content_id: u16 },
    SyncClock { seq_num: u8, epoch_time_sec: u32, zone_offset: u8, tz: String },
    FirmwareCode { seq: u8, dest_addr: u16, num_bytes: u16, code_chunk: Vec<u8> },
    AuthRequest { method: u8 },
    AuthConfirm { conf_code: u8, address: [u8; 4], port: u16 },
    GetCfgParam { param: u8 },
    AckGetCfgParam { param: u8, error: u8, value: u8 },
    SetCfgParam { param: u8, value: u8 },
    AckSetCfgParam { param: u8, error: u8, value: u8 },
    ResetCfgParams,
    AckResetCfgParams,
    StopCfg {
        stop_id: u8,
        title: String,
        phoneme: String,
        route_tag: String,
        snd_md5: String,
        snd_url: String,
        zero_countdown_msg: String,
    },
    AckStopCfg { stop_id: u8, error: u8 },
    ClearStopCfg,
    AckClearStopCfg,
}

impl View for Message {
    type V = MessageView;

    open spec fn view(&self) -> MessageView {
        match *self {
            Message::AckContent { content_id, error } => MessageView::AckContent {
                content_id,
                error,
            },
            Message::Ping { seq_num } => MessageView::Ping { seq_num },
            Message::Pong { seq_num } => MessageView::Pong { seq_num },
            Message::AppRunning { seq_num, reason } => MessageView::AppRunning { seq_num, reason },
            Message::Reboot => MessageView::Reboot,
            Message::DebugMsg { msg } => MessageView::DebugMsg { msg: msg@ },
            Message::ShellCommand { command, command_id } => MessageView::ShellCommand {
                command: command@,
                command_id,
            },
            Message::ContentMsg {
                content_id,
                content_channel,
                count_impressions,
                display_indefinitely,
                booking_id,
                priority,
                payloads,
            } => MessageView::ContentMsg {
                content_id,
                content_channel,
                count_impressions,
                display_indefinitely,
                booking_id,
                priority,
                payloads: crate::msg::content::items_view(payloads@),
            },
            Message::ContentDelete { content_id } => MessageView::ContentDelete { content_id },
            Message::SyncClock { seq_num, epoch_time_sec, zone_offset, tz } => {
                MessageView::SyncClock { seq_num, epoch_time_sec, zone_offset, tz: tz@ }
            },
            Message::FirmwareCode { seq, dest_addr, num_bytes, code_chunk } => {
                MessageView::FirmwareCode { seq, dest_addr, num_bytes, code_chunk: code_chunk@ }
            },
            Message::AuthRequest { method } => MessageView::AuthRequest { method },
            Message::AuthConfirm { conf_code, address, port } => MessageView::AuthConfirm {
                conf_code,
                address: address@,
                port,
            },
            Message::GetCfgParam { param } => MessageView::GetCfgParam { param },
            Message::AckGetCfgParam { param, error, value } => MessageView::AckGetCfgParam {
                param,
                error,
                value,
            },
            Message::SetCfgParam { param, value } => MessageView::SetCfgParam { param, value },
            Message::AckSetCfgParam { param, error, value } => MessageView::AckSetCfgParam {
                param,
                error,
                value,
            },
            Message::ResetCfgParams => MessageView::ResetCfgParams,
            Message::AckResetCfgParams => MessageView::AckResetCfgParams,
            Message::StopCfg {
                stop_id,
                title,
                phoneme,
                route_tag,
                snd_md5,
                snd_url,
                zero_countdown_msg,
            } => MessageView::StopCfg {
                stop_id,
                title: title@,
                phoneme: phoneme@,
                route_tag: route_tag@,
                snd_md5: snd_md5@,
                snd_url: snd_url@,
                zero_countdown_msg: zero_countdown_msg@,
            },
            Message::AckStopCfg { stop_id, error } => MessageView::AckStopCfg { stop_id, error },
            Message::ClearStopCfg => MessageView::ClearStopCfg,
            Message::AckClearStopCfg => MessageView::AckClearStopCfg,
        }
    }
}

/// The outcome of a decoding step, with the message taken by its view.
pub open spec fn decoded(r: Result<Message, DecodeError>) -> Result<MessageView, DecodeError> {
    match r {
        Ok(m) => Ok(m@),
        Err(e) => Err(e),
    }
}

impl Message {
    /// The checksum of `xs`.
    pub fn cksum(xs: &[u8]) -> (sum: u16)
        ensures
            sum == checksum(xs@),
    {
        let mut sum: u16 = CHECKSUM_INIT;
        let mut i: usize = 0;
        while i < xs.len()
            invariant
                i <= xs.len(),
                sum == checksum(xs@.take(i as int)),
            decreases xs.len() - i,
        {
            proof {
                assert(xs@.take(i as int + 1).drop_last() =~= xs@.take(i as int));
            }
            sum = absorb_byte(sum, xs[i]);
            i = i + 1;
        }
        proof {
            assert(xs@.take(i as int) =~= xs@);
        }
        sum
    }

    /// The type byte that announces the message on the wire.
    pub fn get_type(&self) -> (t: u8)
        ensures
            t == self@.type_code(),
    {
        match self {
            Message::Reboot => 6,
            Message::AppRunning { .. } => 8,
            Message::Ping { .. } => 10,
            Message::Pong { .. } => 11,
            Message::StopCfg { .. } => 14,
            Message::AckStopCfg { .. } => 15,
            Message::ClearStopCfg => 16,
            Message::AckClearStopCfg => 17,
            Message::SetCfgParam { .. } => 18,
            Message::AckSetCfgParam { .. } => 19,
            Message::GetCfgParam { .. } => 20,
            Message::AckGetCfgParam { .. } => 21,
            Message::ResetCfgParams => 22,
            Message::AckResetCfgParams => 23,
            Message::SyncClock { .. } => 26,
            Message::DebugMsg { .. } => 28,
            Message::FirmwareCode { .. } => 31,
            Message::ContentMsg { .. } => 32,
            Message::AckContent { .. } => 33,
            Message::ContentDelete { .. } => 36,
            Message::AuthRequest { .. } => 50,
            Message::AuthConfirm { .. } => 52,
            Message::ShellCommand { .. } => 80,
        }
    }

    /// Whether the message can be put on the wire.
    pub fn is_well_formed(&self) -> (ok: bool)
        ensures
            ok == self@.wf(),
    {
        match self {
            Message::DebugMsg { msg } => text_len(msg) <= MAX_PAYLOAD_LEN,
            Message::ShellCommand { command, .. } => text_len(command) <= MAX_PAYLOAD_LEN - 3,
            Message::ContentMsg { payloads, .. } => payloads_fit(payloads),
            Message::SyncClock { tz, .. } => text_len(tz) <= 255,
            Message::FirmwareCode { num_bytes, code_chunk, .. } => {
                code_chunk.len() == *num_bytes as usize && code_chunk.len() <= MAX_PAYLOAD_LEN - 5
            },
            Message::StopCfg {
                title,
                phoneme,
                route_tag,
                snd_md5,
                snd_url,
                zero_countdown_msg,
                ..
            } => {
                text_len(title) <= 255 && text_len(phoneme) <= 255 && text_len(route_tag) <= 255
                    && text_len(snd_md5) <= 255 && text_len(snd_url) <= 255 && text_len(
                    zero_countdown_msg,
                ) <= 255
            },
            _ => true,
        }
    }

    /// The payload bytes of the message.
    pub fn get_payload(&self) -> (out: Vec<u8>)
        requires
            self@.fields_fit(),
        ensures
            out@ == self@.payload(),
    {
        let mut out: Vec<u8> = Vec::new();
        match self {
            Message::Ping { seq_num } => {
                out.push(*seq_num);
            },
            Message::Pong { seq_num } => {
                out.push(*seq_num);
            },
            Message::AppRunning { seq_num, reason } => {
                out.push(*seq_num);
                out.push(reason.code());
            },
            Message::Reboot => {},
            Message::DebugMsg { msg } => {
                push_text(&mut out, msg);
            },
            Message::ShellCommand { command, command_id } => {
                out.push(*command_id);
                push_be16(&mut out, text_len(command) as u16);
                push_text(&mut out, command);
            },
            Message::ContentMsg {
                content_id,
                content_channel,
                count_impressions,
                display_indefinitely,
                booking_id,
                priority,
                payloads,
            } => {
                push_be16(&mut out, *content_id);
                out.push(*content_channel);
                let mut flags: u8 = 0;
                if *count_impressions {
                    flags = flags + 1;
                }
                if *display_indefinitely {
                    flags = flags + 2;
                }
                out.push(flags);
                push_be16(&mut out, *booking_id);
                push_be16(&mut out, *priority);
                out.push(payloads.len() as u8);
                push_items(&mut out, payloads);
            },
            Message::AckContent { content_id, error } => {
                push_be16(&mut out, *content_id);
                out.push(*error);
            },
            Message::ContentDelete { content_id } => {
                push_be16(&mut out, *content_id);
            },
            Message::SyncClock { seq_num, epoch_time_sec, zone_offset, tz } => {
                out.push(*seq_num);
                push_be32(&mut out, *epoch_time_sec);
                out.push(*zone_offset);
                out.push(text_len(tz) as u8);
                push_text(&mut out, tz);
            },
            Message::FirmwareCode { seq, dest_addr, num_bytes, code_chunk } => {
                out.push(*seq);
                push_be16(&mut out, *dest_addr);
                push_be16(&mut out, *num_bytes);
                push_bytes(&mut out, code_chunk.as_slice());
            },
            Message::AuthRequest { method } => {
                out.push(*method);
            },
            Message::AuthConfirm { conf_code, address, port } => {
                out.push(*conf_code);
                out.push(address[0]);
                out.push(address[1]);
                out.push(address[2]);
                out.push(address[3]);
                push_be16(&mut out, *port);
            },
            Message::GetCfgParam { param } => {
                out.push(*param);
            },
            Message::AckGetCfgParam { param, error, value } => {
                out.push(*param);
                out.push(*error);
                out.push(*value);
            },
            Message::SetCfgParam { param, value } => {
                out.push(*param);
                out.push(*value);
            },
            Message::AckSetCfgParam { param, error, value } => {
                out.push(*param);
                out.push(*error);
                out.push(*value);
            },
            Message::ResetCfgParams => {},
            Message::AckResetCfgParams => {},
            Message::StopCfg {
                stop_id,
                title,
                phoneme,
                route_tag,
                snd_md5,
                snd_url,
                zero_countdown_msg,
            } => {
                out.push(*stop_id);
                out.push(text_len(title) as u8);
                out.push(text_len(phoneme) as u8);
                push_text(&mut out, title);
                push_text(&mut out, phoneme);
                out.push(text_len(zero_countdown_msg) as u8);
                push_text(&mut out, zero_countdown_msg);
                out.push(text_len(route_tag) as u8);
                push_text(&mut out, route_tag);
                out.push(text_len(snd_md5) as u8);
                push_text(&mut out, snd_md5);
                out.push(text_len(snd_url) as u8);
                push_text(&mut out, snd_url);
            },
            Message::AckStopCfg { stop_id, error } => {
                out.push(*stop_id);
                out.push(*error);
            },
            Message::ClearStopCfg => {},
            Message::AckClearStopCfg => {},
        }
        assert(out@ =~= self@.payload());
        out
    }

    /// The frame that carries the message: type, length, payload, checksum.
    pub fn encode(self) -> (out: Vec<u8>)
        requires
            self@.wf(),
        ensures
            out@ == self@.frame(),
            out@.len() == self@.payload().len() + FRAME_OVERHEAD,
            out@.len() == be16(out@[1], out@[2]),
    {
        proof {
            crate::msg::laws::lemma_length_field(self@);
        }
        let t: u8 = self.get_type();
        let payload = self.get_payload();
        let len: u16 = (payload.len() + FRAME_OVERHEAD) as u16;
        let mut out: Vec<u8> = Vec::with_capacity(len as usize);
        out.push(t);
        push_be16(&mut out, len);
        push_bytes(&mut out, payload.as_slice());
        assert(out@ =~= frame_head(t, payload@));
        let cksum: u16 = Self::cksum(out.as_slice());
        push_be16(&mut out, cksum);
        out
    }

    /// Decodes the frame at the front of `stream`. Bytes behind that frame
    /// are not looked at.
    pub fn decode(stream: &[u8]) -> (r: Result<Message, DecodeError>)
        ensures
            decoded(r) == parse_frame(stream@),
            r matches Ok(m) ==> m@.wf(),
    {
        proof {
            if parse_frame(stream@) is Ok {
                crate::msg::laws::lemma_decoded_is_well_formed(stream@);
            }
        }
        if stream.len() < HEADER_LEN {
            return Err(DecodeError::Io(IoCause::UnexpectedEof));
        }
        let t: u8 = stream[0];
        let len: usize = read_be16(stream[1], stream[2]) as usize;
        if len < FRAME_OVERHEAD {
            return Err(DecodeError::Framing);
        }
        if stream.len() < len {
            return Err(DecodeError::Io(IoCause::UnexpectedEof));
        }
        let payload = slice_to_vec(slice_subrange(stream, HEADER_LEN, len - 2));
        let cksum: u16 = read_be16(stream[len - 2], stream[len - 1]);
        let cksum_calc: u16 = Self::cksum(slice_subrange(stream, 0, len - 2));
        if cksum_calc != cksum {
            return Err(DecodeError::ChecksumMismatch { declared: cksum, computed: cksum_calc });
        }
        match t {
            8 => app_running::new(payload),
            11 => pong::new(payload),
            6 => Ok(reboot::new()),
            28 => debug::new(payload),
            32 => content::new(payload),
            31 => firmware_code::new(payload),
            33 => ack_content::new(payload),
            36 => content_delete::new(payload),
            50 => auth_request::new(payload),
            52 => auth_confirm::new(payload),
            20 => cfg_params::new_get(payload),
            21 => cfg_params::new_get_ack(payload),
            18 => cfg_params::new_set(payload),
            19 => cfg_params::new_set_ack(payload),
            22 => Ok(cfg_params::new_reset()),
            23 => Ok(cfg_params::new_reset_ack()),
            14 => stop_cfg::new(payload),
            15 => stop_cfg::new_ack(payload),
            16 => Ok(stop_cfg::new_clear()),
            17 => Ok(stop_cfg::new_clear_ack()),
            10 => ping::new(payload),
            26 => sync_clock::new(payload),
            80 => shell_command::new(payload),
            x => Err(DecodeError::UnknownType(x)),
        }
    }
}

} // verus!
