//! Stop configuration: StopCfg (14), AckStopCfg (15), ClearStopCfg (16) and
//! AckClearStopCfg (17).
//!
//! The StopCfg payload is
//! `stop_id:u8 | title_len:u8 | phoneme_len:u8 | title | phoneme |
//! u8n(zero_countdown_msg) | u8n(route_tag) | u8n(snd_md5) | u8n(snd_url)`:
//! the first two texts have their lengths up front, the other four carry
//! theirs directly before them.

use vstd::prelude::*;
use vstd::utf8::encode_utf8;

use crate::error::DecodeError;
use crate::msg::layout::MessageView;
use crate::msg::{decoded, Message};
use crate::wire::{
    counted_text, lemma_counted_text_holds_encoding, lemma_counted_text_of_encoded,
    lemma_text_field_holds_encoding, lemma_text_field_of_encoded, read_counted_text, read_text,
    text_field,
};

verus! {

/// A text with its one-byte length in front.
pub open spec fn counted(text: Seq<char>) -> Seq<u8> {
    seq![encode_utf8(text).len() as u8] + encode_utf8(text)
}

/// The payload of a stop configuration.
pub open spec fn payload(
    stop_id: u8,
    title: Seq<char>,
    phoneme: Seq<char>,
    route_tag: Seq<char>,
    snd_md5: Seq<char>,
    snd_url: Seq<char>,
    zero_countdown_msg: Seq<char>,
) -> Seq<u8> {
    seq![stop_id, encode_utf8(title).len() as u8, encode_utf8(phoneme).len() as u8] + encode_utf8(
        title,
    ) + encode_utf8(phoneme) + counted(zero_countdown_msg) + counted(route_tag) + counted(snd_md5)
        + counted(snd_url)
}

/// Fields are read from left to right, and the first one that is broken
/// decides the error.
pub open spec fn parse(p: Seq<u8>) -> Result<MessageView, DecodeError> {
    if p.len() < 3 {
        Err(DecodeError::Framing)
    } else {
        let at_phoneme = 3 + p[1] as int;
        let at_rest = at_phoneme + p[2] as int;
        match text_field(p, 3, p[1] as int) {
            Err(detail) => Err(DecodeError::MalformedPayload { msg_type: 14, detail }),
            Ok(title) => match text_field(p, at_phoneme, p[2] as int) {
                Err(detail) => Err(DecodeError::MalformedPayload { msg_type: 14, detail }),
                Ok(phoneme) => match counted_text(p, at_rest) {
                    Err(detail) => Err(DecodeError::MalformedPayload { msg_type: 14, detail }),
                    Ok((zero_countdown_msg, at_route)) => match counted_text(p, at_route) {
                        Err(detail) => Err(DecodeError::MalformedPayload { msg_type: 14, detail }),
                        Ok((route_tag, at_md5)) => match counted_text(p, at_md5) {
                            Err(detail) => Err(
                                DecodeError::MalformedPayload { msg_type: 14, detail },
                            ),
                            Ok((snd_md5, at_url)) => match counted_text(p, at_url) {
                                Err(detail) => Err(
                                    DecodeError::MalformedPayload { msg_type: 14, detail },
                                ),
                                Ok((snd_url, _)) => Ok(
                                    MessageView::StopCfg {
                                        stop_id: p[0],
                                        title,
                                        phoneme,
                                        route_tag,
                                        snd_md5,
                                        snd_url,
                                        zero_countdown_msg,
                                    },
                                ),
                            },
                        },
                    },
                },
            },
        }
    }
}

/// AckStopCfg: `stop_id:u8 | error:u8`.
pub open spec fn parse_ack(p: Seq<u8>) -> Result<MessageView, DecodeError> {
    if p.len() < 2 {
        Err(DecodeError::Framing)
    } else {
        Ok(MessageView::AckStopCfg { stop_id: p[0], error: p[1] })
    }
}

/// Reads a StopCfg from its payload.
pub fn new(payload: Vec<u8>) -> (r: Result<Message, DecodeError>)
    ensures
        decoded(r) == parse(payload@),
{
    if payload.len() < 3 {
        return Err(DecodeError::Framing);
    }
    let p = payload.as_slice();
    let stop_id: u8 = p[0];
    let title_len: usize = p[1] as usize;
    let phoneme_len: usize = p[2] as usize;
    let title = match read_text(p, 3, title_len) {
        Ok(s) => s,
        Err(detail) => { return Err(DecodeError::MalformedPayload { msg_type: 14, detail }); },
    };
    let phoneme = match read_text(p, 3 + title_len, phoneme_len) {
        Ok(s) => s,
        Err(detail) => { return Err(DecodeError::MalformedPayload { msg_type: 14, detail }); },
    };
    let (zero_countdown_msg, at_route) = match read_counted_text(p, 3 + title_len + phoneme_len) {
        Ok(found) => found,
        Err(detail) => { return Err(DecodeError::MalformedPayload { msg_type: 14, detail }); },
    };
    let (route_tag, at_md5) = match read_counted_text(p, at_route) {
        Ok(found) => found,
        Err(detail) => { return Err(DecodeError::MalformedPayload { msg_type: 14, detail }); },
    };
    let (snd_md5, at_url) = match read_counted_text(p, at_md5) {
        Ok(found) => found,
        Err(detail) => { return Err(DecodeError::MalformedPayload { msg_type: 14, detail }); },
    };
    let (snd_url, _) = match read_counted_text(p, at_url) {
        Ok(found) => found,
        Err(detail) => { return Err(DecodeError::MalformedPayload { msg_type: 14, detail }); },
    };
    Ok(
        Message::StopCfg {
            stop_id,
            title,
            phoneme,
            route_tag,
            snd_md5,
            snd_url,
            zero_countdown_msg,
        },
    )
}

/// Reads an AckStopCfg from its payload.
pub fn new_ack(payload: Vec<u8>) -> (r: Result<Message, DecodeError>)
    ensures
        decoded(r) == parse_ack(payload@),
{
    if payload.len() < 2 {
        return Err(DecodeError::Framing);
    }
    Ok(Message::AckStopCfg { stop_id: payload[0], error: payload[1] })
}

/// ClearStopCfg has no payload.
pub fn new_clear() -> (m: Message)
    ensures
        m@ == MessageView::ClearStopCfg,
{
    Message::ClearStopCfg
}

/// AckClearStopCfg has no payload.
pub fn new_clear_ack() -> (m: Message)
    ensures
        m@ == MessageView::AckClearStopCfg,
{
    Message::AckClearStopCfg
}

/// Where each field lies in the payload.
proof fn lemma_payload_fields(
    stop_id: u8,
    title: Seq<char>,
    phoneme: Seq<char>,
    route_tag: Seq<char>,
    snd_md5: Seq<char>,
    snd_url: Seq<char>,
    zero_countdown_msg: Seq<char>,
)
    ensures
        ({
            let p = payload(
                stop_id,
                title,
                phoneme,
                route_tag,
                snd_md5,
                snd_url,
                zero_countdown_msg,
            );
            let tl = encode_utf8(title).len() as int;
            let pl = encode_utf8(phoneme).len() as int;
            let zl = encode_utf8(zero_countdown_msg).len() as int;
            let rl = encode_utf8(route_tag).len() as int;
            let ml = encode_utf8(snd_md5).len() as int;
            let ul = encode_utf8(snd_url).len() as int;
            let at_zero = 3 + tl + pl;
            let at_route = at_zero + 1 + zl;
            let at_md5 = at_route + 1 + rl;
            let at_url = at_md5 + 1 + ml;
            &&& p.len() == at_url + 1 + ul
            &&& p[0] == stop_id
            &&& p[1] == tl as u8
            &&& p[2] == pl as u8
            &&& p[at_zero] == zl as u8
            &&& p[at_route] == rl as u8
            &&& p[at_md5] == ml as u8
            &&& p[at_url] == ul as u8
            &&& p.subrange(3, 3 + tl) == encode_utf8(title)
            &&& p.subrange(3 + tl, 3 + tl + pl) == encode_utf8(phoneme)
            &&& p.subrange(at_zero + 1, at_zero + 1 + zl) == encode_utf8(zero_countdown_msg)
            &&& p.subrange(at_route + 1, at_route + 1 + rl) == encode_utf8(route_tag)
            &&& p.subrange(at_md5 + 1, at_md5 + 1 + ml) == encode_utf8(snd_md5)
            &&& p.subrange(at_url + 1, at_url + 1 + ul) == encode_utf8(snd_url)
        }),
{
    let p = payload(stop_id, title, phoneme, route_tag, snd_md5, snd_url, zero_countdown_msg);
    let head = seq![stop_id, encode_utf8(title).len() as u8, encode_utf8(phoneme).len() as u8];
    let p1 = head + encode_utf8(title);
    let p2 = p1 + encode_utf8(phoneme);
    let p3 = p2 + counted(zero_countdown_msg);
    let p4 = p3 + counted(route_tag);
    let p5 = p4 + counted(snd_md5);
    assert(p == p5 + counted(snd_url));
    let tl = encode_utf8(title).len() as int;
    let pl = encode_utf8(phoneme).len() as int;
    let zl = encode_utf8(zero_countdown_msg).len() as int;
    let rl = encode_utf8(route_tag).len() as int;
    let ml = encode_utf8(snd_md5).len() as int;
    let ul = encode_utf8(snd_url).len() as int;
    let at_zero = 3 + tl + pl;
    let at_route = at_zero + 1 + zl;
    let at_md5 = at_route + 1 + rl;
    let at_url = at_md5 + 1 + ml;
    assert(p1.len() == 3 + tl);
    assert(p2.len() == at_zero);
    assert(p3.len() == at_route);
    assert(p4.len() == at_md5);
    assert(p5.len() == at_url);
    assert(p.subrange(0, at_url) =~= p5);
    assert(p.subrange(at_url + 1, at_url + 1 + ul) =~= encode_utf8(snd_url));
    assert(p5.subrange(0, at_md5) =~= p4);
    assert(p5.subrange(at_md5 + 1, at_md5 + 1 + ml) =~= encode_utf8(snd_md5));
    assert(p4.subrange(0, at_route) =~= p3);
    assert(p4.subrange(at_route + 1, at_route + 1 + rl) =~= encode_utf8(route_tag));
    assert(p3.subrange(0, at_zero) =~= p2);
    assert(p3.subrange(at_zero + 1, at_zero + 1 + zl) =~= encode_utf8(zero_countdown_msg));
    assert(p2.subrange(0, 3 + tl) =~= p1);
    assert(p2.subrange(3 + tl, 3 + tl + pl) =~= encode_utf8(phoneme));
    assert(p1.subrange(3, 3 + tl) =~= encode_utf8(title));
    assert(p.subrange(at_md5 + 1, at_md5 + 1 + ml) =~= p5.subrange(at_md5 + 1, at_md5 + 1 + ml));
    assert(p.subrange(0, at_md5) =~= p4);
    assert(p.subrange(at_route + 1, at_route + 1 + rl) =~= p4.subrange(
        at_route + 1,
        at_route + 1 + rl,
    ));
    assert(p.subrange(0, at_route) =~= p3);
    assert(p.subrange(at_zero + 1, at_zero + 1 + zl) =~= p3.subrange(
        at_zero + 1,
        at_zero + 1 + zl,
    ));
    assert(p.subrange(0, at_zero) =~= p2);
    assert(p.subrange(3 + tl, 3 + tl + pl) =~= p2.subrange(3 + tl, 3 + tl + pl));
    assert(p.subrange(0, 3 + tl) =~= p1);
    assert(p.subrange(3, 3 + tl) =~= p1.subrange(3, 3 + tl));
    assert(p[0] == p1[0] && p[1] == p1[1] && p[2] == p1[2]);
    assert(p[at_zero] == p3[at_zero]);
    assert(p[at_route] == p4[at_route]);
    assert(p[at_md5] == p5[at_md5]);
}

/// Reading the payload of a stop configuration whose texts fit gives the
/// message back, each text in its own field.
pub proof fn lemma_roundtrip(
    stop_id: u8,
    title: Seq<char>,
    phoneme: Seq<char>,
    route_tag: Seq<char>,
    snd_md5: Seq<char>,
    snd_url: Seq<char>,
    zero_countdown_msg: Seq<char>,
)
    requires
        encode_utf8(title).len() <= u8::MAX,
        encode_utf8(phoneme).len() <= u8::MAX,
        encode_utf8(route_tag).len() <= u8::MAX,
        encode_utf8(snd_md5).len() <= u8::MAX,
        encode_utf8(snd_url).len() <= u8::MAX,
        encode_utf8(zero_countdown_msg).len() <= u8::MAX,
    ensures
        parse(payload(stop_id, title, phoneme, route_tag, snd_md5, snd_url, zero_countdown_msg))
            == Ok::<MessageView, DecodeError>(
            MessageView::StopCfg {
                stop_id,
                title,
                phoneme,
                route_tag,
                snd_md5,
                snd_url,
                zero_countdown_msg,
            },
        ),
{
    let p = payload(stop_id, title, phoneme, route_tag, snd_md5, snd_url, zero_countdown_msg);
    let tl = encode_utf8(title).len() as int;
    let pl = encode_utf8(phoneme).len() as int;
    let zl = encode_utf8(zero_countdown_msg).len() as int;
    let rl = encode_utf8(route_tag).len() as int;
    let ml = encode_utf8(snd_md5).len() as int;
    let at_zero = 3 + tl + pl;
    let at_route = at_zero + 1 + zl;
    let at_md5 = at_route + 1 + rl;
    let at_url = at_md5 + 1 + ml;
    lemma_payload_fields(stop_id, title, phoneme, route_tag, snd_md5, snd_url, zero_countdown_msg);
    lemma_text_field_of_encoded(p, 3, title);
    lemma_text_field_of_encoded(p, 3 + tl, phoneme);
    lemma_counted_text_of_encoded(p, at_zero, zero_countdown_msg);
    lemma_counted_text_of_encoded(p, at_route, route_tag);
    lemma_counted_text_of_encoded(p, at_md5, snd_md5);
    lemma_counted_text_of_encoded(p, at_url, snd_url);
}

/// A stop configuration that was read can be written.
pub proof fn lemma_parsed_fits(p: Seq<u8>)
    requires
        parse(p) is Ok,
    ensures
        parse(p)->Ok_0.fields_fit(),
        parse(p)->Ok_0.type_code() == 14,
        parse(p)->Ok_0.payload().len() <= p.len(),
{
    let at_phoneme = 3 + p[1] as int;
    let at_zero = at_phoneme + p[2] as int;
    lemma_text_field_holds_encoding(p, 3, p[1] as int);
    lemma_text_field_holds_encoding(p, at_phoneme, p[2] as int);
    lemma_counted_text_holds_encoding(p, at_zero);
    let at_route = counted_text(p, at_zero)->Ok_0.1;
    lemma_counted_text_holds_encoding(p, at_route);
    let at_md5 = counted_text(p, at_route)->Ok_0.1;
    lemma_counted_text_holds_encoding(p, at_md5);
    let at_url = counted_text(p, at_md5)->Ok_0.1;
    lemma_counted_text_holds_encoding(p, at_url);
}

} // verus!
