//! What holds of the codec as a whole.

use vstd::prelude::*;

use crate::checksum::{checksum, lemma_checksum_detects_byte_change};
use crate::error::DecodeError;
use crate::msg::layout::{
    frame_head, frame_of, known_type, parse_frame, parse_payload, MessageView, FRAME_OVERHEAD,
    HEADER_LEN, MAX_PAYLOAD_LEN,
};
use crate::wire::{be16, be16_bytes, lemma_be16_of_bytes, lemma_text_field_holds_encoding};

verus! {

/// Reading the payload of a message without texts or byte strings under its
/// own type gives the message back.
proof fn lemma_fixed_payload_roundtrip(m: MessageView)
    requires
        !(m is DebugMsg),
        !(m is ShellCommand),
        !(m is ContentMsg),
        !(m is SyncClock),
        !(m is FirmwareCode),
        !(m is StopCfg),
        m.fields_fit(),
    ensures
        parse_payload(m.type_code(), m.payload()) == Ok::<MessageView, DecodeError>(m),
{
    match m {
        MessageView::AppRunning { seq_num, reason } => {
            reason.lemma_code_roundtrip();
        },
        MessageView::AckContent { content_id, error } => {
            lemma_be16_of_bytes(content_id);
        },
        MessageView::ContentDelete { content_id } => {
            lemma_be16_of_bytes(content_id);
        },
        MessageView::AuthConfirm { conf_code, address, port } => {
            lemma_be16_of_bytes(port);
            assert(m.payload().subrange(1, 5) =~= address);
        },
        _ => {},
    }
}

/// Reading the payload of a well-formed message under its own type gives the
/// message back.
pub proof fn lemma_payload_roundtrip(m: MessageView)
    requires
        m.fields_fit(),
    ensures
        parse_payload(m.type_code(), m.payload()) == Ok::<MessageView, DecodeError>(m),
{
    match m {
        MessageView::DebugMsg { msg } => {
            crate::msg::debug::lemma_roundtrip(msg);
        },
        MessageView::ShellCommand { command, command_id } => {
            crate::msg::shell_command::lemma_roundtrip(command, command_id);
        },
        MessageView::ContentMsg {
            content_id,
            content_channel,
            count_impressions,
            display_indefinitely,
            booking_id,
            priority,
            payloads,
        } => {
            crate::msg::content::lemma_roundtrip(
                content_id,
                content_channel,
                count_impressions,
                display_indefinitely,
                booking_id,
                priority,
                payloads,
            );
        },
        MessageView::SyncClock { seq_num, epoch_time_sec, zone_offset, tz } => {
            crate::msg::sync_clock::lemma_roundtrip(seq_num, epoch_time_sec, zone_offset, tz);
        },
        MessageView::FirmwareCode { seq, dest_addr, num_bytes, code_chunk } => {
            crate::msg::firmware_code::lemma_roundtrip(seq, dest_addr, num_bytes, code_chunk);
        },
        MessageView::StopCfg {
            stop_id,
            title,
            phoneme,
            route_tag,
            snd_md5,
            snd_url,
            zero_countdown_msg,
        } => {
            crate::msg::stop_cfg::lemma_roundtrip(
                stop_id,
                title,
                phoneme,
                route_tag,
                snd_md5,
                snd_url,
                zero_countdown_msg,
            );
        },
        _ => {
            lemma_fixed_payload_roundtrip(m);
        },
    }
}

/// The parts of a frame: where they lie and what the length field says.
pub proof fn lemma_frame_parts(t: u8, payload: Seq<u8>)
    requires
        payload.len() <= MAX_PAYLOAD_LEN,
    ensures
        frame_of(t, payload).len() == payload.len() + FRAME_OVERHEAD,
        frame_of(t, payload)[0] == t,
        be16(frame_of(t, payload)[1], frame_of(t, payload)[2]) == payload.len() + FRAME_OVERHEAD,
        frame_of(t, payload).subrange(0, payload.len() as int + 3) == frame_head(t, payload),
        frame_of(t, payload).subrange(3, payload.len() as int + 3) == payload,
        be16(
            frame_of(t, payload)[payload.len() as int + 3],
            frame_of(t, payload)[payload.len() as int + 4],
        ) == checksum(frame_head(t, payload)),
{
    let head = frame_head(t, payload);
    let frame = frame_of(t, payload);
    lemma_be16_of_bytes((payload.len() + FRAME_OVERHEAD) as u16);
    lemma_be16_of_bytes(checksum(head));
    assert(head.len() == payload.len() + 3);
    assert(frame.subrange(0, payload.len() as int + 3) =~= head);
    assert(frame.subrange(3, payload.len() as int + 3) =~= payload);
}

/// Decoding a frame, with whatever bytes behind it, comes to reading its
/// payload under its type.
pub proof fn lemma_parse_frame_of(t: u8, payload: Seq<u8>, behind: Seq<u8>)
    requires
        payload.len() <= MAX_PAYLOAD_LEN,
    ensures
        parse_frame(frame_of(t, payload) + behind) == parse_payload(t, payload),
{
    let frame = frame_of(t, payload);
    let bytes = frame + behind;
    let len = payload.len() as int + FRAME_OVERHEAD as int;
    lemma_frame_parts(t, payload);
    assert(bytes[0] == frame[0]);
    assert(bytes[1] == frame[1]);
    assert(bytes[2] == frame[2]);
    assert(bytes[len - 2] == frame[len - 2]);
    assert(bytes[len - 1] == frame[len - 1]);
    assert(bytes.subrange(0, len - 2) =~= frame.subrange(0, len - 2));
    assert(bytes.subrange(3, len - 2) =~= frame.subrange(3, len - 2));
}

/// Decoding the frame of a well-formed message gives the message back,
/// whatever follows the frame in the input.
pub proof fn lemma_decode_encode(m: MessageView, behind: Seq<u8>)
    requires
        m.wf(),
    ensures
        parse_frame(m.frame() + behind) == Ok::<MessageView, DecodeError>(m),
        parse_frame(m.frame()) == Ok::<MessageView, DecodeError>(m),
{
    lemma_parse_frame_of(m.type_code(), m.payload(), behind);
    lemma_parse_frame_of(m.type_code(), m.payload(), Seq::empty());
    assert(m.frame() + Seq::<u8>::empty() =~= m.frame());
    lemma_payload_roundtrip(m);
}

/// The length field of a frame is the number of bytes of the frame, type
/// byte, length field and checksum included.
pub proof fn lemma_length_field(m: MessageView)
    requires
        m.wf(),
    ensures
        m.frame().len() == m.payload().len() + FRAME_OVERHEAD,
        be16(m.frame()[1], m.frame()[2]) == m.frame().len(),
{
    lemma_frame_parts(m.type_code(), m.payload());
}

/// In the frame of a content message the flags byte has bit 0 set exactly
/// when impressions are counted, bit 1 set exactly when the content is
/// displayed indefinitely, and no other bit set.
pub proof fn lemma_content_flags(m: MessageView)
    requires
        m.wf(),
        m is ContentMsg,
    ensures
        (m.frame()[6] & 1 != 0) == m->count_impressions,
        (m.frame()[6] & 2 != 0) == m->display_indefinitely,
        m.frame()[6] & 0xfc == 0,
{
    lemma_frame_parts(m.type_code(), m.payload());
    crate::msg::content::lemma_flags_byte(m->count_impressions, m->display_indefinitely);
    assert(m.frame()[6] == m.frame().subrange(3, m.payload().len() as int + 3)[3]);
    assert(m.payload()[3] == crate::msg::content::flags_byte(
        m->count_impressions,
        m->display_indefinitely,
    ));
}

/// In the frame of a well-formed message, replacing any one byte outside the
/// length field by a different byte makes decoding fail with a checksum
/// mismatch whose two values differ. (A changed length field moves the place
/// where the checksum is looked for, so nothing of the kind holds there.)
pub proof fn lemma_corruption_detected(m: MessageView, i: int, b: u8)
    requires
        m.wf(),
        0 <= i < m.frame().len(),
        i != 1,
        i != 2,
        b != m.frame()[i],
    ensures
        parse_frame(m.frame().update(i, b)) matches Err(
            DecodeError::ChecksumMismatch { declared, computed },
        ) && declared != computed,
{
    let t = m.type_code();
    let payload = m.payload();
    let head = frame_head(t, payload);
    let frame = m.frame();
    let bad = frame.update(i, b);
    let len = payload.len() as int + FRAME_OVERHEAD as int;
    lemma_frame_parts(t, payload);
    assert(bad[1] == frame[1] && bad[2] == frame[2]);
    if i < len - 2 {
        assert(bad.subrange(0, len - 2) =~= head.update(i, b));
        assert(head[i] == frame[i]);
        lemma_checksum_detects_byte_change(head, i, b);
        assert(bad[len - 2] == frame[len - 2] && bad[len - 1] == frame[len - 1]);
    } else {
        assert(bad.subrange(0, len - 2) =~= head);
        let sum = checksum(head);
        lemma_be16_bytes_differ(frame[len - 2], frame[len - 1], bad[len - 2], bad[len - 1]);
    }
}

/// Two pairs of bytes that differ stand for different 16-bit values.
proof fn lemma_be16_bytes_differ(hi: u8, lo: u8, hi2: u8, lo2: u8)
    requires
        hi != hi2 || lo != lo2,
    ensures
        be16(hi, lo) != be16(hi2, lo2),
{
}

/// A frame whose last byte was replaced by a different one is rejected with
/// a checksum mismatch: the declared value is what the two trailing bytes now
/// say, the computed value is the checksum of what precedes them, and the two
/// differ.
pub proof fn lemma_last_byte_changed(m: MessageView, b: u8)
    requires
        m.wf(),
        b != m.frame().last(),
    ensures
        parse_frame(m.frame().update(m.frame().len() - 1, b)) == Err::<MessageView, DecodeError>(
            DecodeError::ChecksumMismatch {
                declared: be16(m.frame()[m.frame().len() - 2], b),
                computed: checksum(frame_head(m.type_code(), m.payload())),
            },
        ),
        be16(m.frame()[m.frame().len() - 2], b) != checksum(
            frame_head(m.type_code(), m.payload()),
        ),
{
    let frame = m.frame();
    let len = m.payload().len() as int + FRAME_OVERHEAD as int;
    lemma_frame_parts(m.type_code(), m.payload());
    lemma_corruption_detected(m, len - 1, b);
    let bad = frame.update(len - 1, b);
    assert(bad[1] == frame[1] && bad[2] == frame[2]);
    assert(bad.subrange(0, len - 2) =~= frame_head(m.type_code(), m.payload()));
    assert(bad[len - 2] == frame[len - 2] && bad[len - 1] == b);
}

/// A frame whose type byte is not in the registry is answered with that
/// byte, whatever its payload holds.
pub proof fn lemma_unknown_type(t: u8, payload: Seq<u8>, behind: Seq<u8>)
    requires
        !known_type(t),
        payload.len() <= MAX_PAYLOAD_LEN,
    ensures
        parse_frame(frame_of(t, payload) + behind) == Err::<MessageView, DecodeError>(
            DecodeError::UnknownType(t),
        ),
{
    lemma_parse_frame_of(t, payload, behind);
}

/// Every message has a type byte of the registry.
pub proof fn lemma_type_code_is_known(m: MessageView)
    ensures
        known_type(m.type_code()),
{
}

/// A message read from a payload has the type it was read under and fields
/// that fit, and its own payload is no longer than the one it was read from.
pub proof fn lemma_parsed_fits(t: u8, p: Seq<u8>)
    requires
        parse_payload(t, p) is Ok,
    ensures
        parse_payload(t, p)->Ok_0.type_code() == t,
        parse_payload(t, p)->Ok_0.fields_fit(),
        parse_payload(t, p)->Ok_0.payload().len() <= p.len(),
{
    if t == 14 {
        crate::msg::stop_cfg::lemma_parsed_fits(p);
    } else if t == 26 {
        lemma_text_field_holds_encoding(p, 7, p[6] as int);
    } else if t == 28 {
        vstd::utf8::decode_utf8_encode_utf8(p);
    } else if t == 32 {
        crate::msg::content::lemma_parsed_fits(p);
    } else if t == 80 {
        lemma_text_field_holds_encoding(p, 3, be16(p[1], p[2]) as int);
    }
}

/// Whatever decoding accepts is well-formed, so it can be encoded again.
pub proof fn lemma_decoded_is_well_formed(bytes: Seq<u8>)
    requires
        parse_frame(bytes) is Ok,
    ensures
        parse_frame(bytes)->Ok_0.wf(),
        parse_frame(bytes)->Ok_0.type_code() == bytes[0],
{
    let len = be16(bytes[1], bytes[2]) as int;
    lemma_parsed_fits(bytes[0], bytes.subrange(HEADER_LEN as int, len - 2));
}

} // verus!
