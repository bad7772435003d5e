//! ContentMsg: type 32, payload
//! `content_id:u16 | channel:u8 | flags:u8 | booking_id:u16 | priority:u16 |
//! n:u8 | n x (kind:u8 | u16n(bytes))`.
//!
//! In the flags byte bit 0 is `count_impressions` and bit 1 is
//! `display_indefinitely`. The other bits are written as zero and ignored
//! when read.

use vstd::prelude::*;
use vstd::slice::{slice_subrange, slice_to_vec};

use crate::error::{DecodeError, PayloadFault};
use crate::msg::layout::{MessageView, MAX_PAYLOAD_LEN};
use crate::msg::{decoded, Message};
use crate::wire::{be16, be16_bytes, lemma_be16_of_bytes, push_be16, push_bytes, read_be16};

verus! {

/// What one payload inside a content message holds.
#[derive(Debug, Clone, Copy, PartialEq, Eq)]
pub enum PayloadType {
    Msg,
    Phoneme,
    SoundURL,
    SoundChecksum,
    RouteTags,
    Bitmap,
}

impl PayloadType {
    /// The byte that stands for the kind.
    pub open spec fn wire_code(self) -> u8 {
        match self {
            PayloadType::Msg => 0,
            PayloadType::Phoneme => 1,
            PayloadType::Bitmap => 2,
            PayloadType::SoundURL => 3,
            PayloadType::SoundChecksum => 4,
            PayloadType::RouteTags => 5,
        }
    }

    /// The kind that a byte stands for, if it stands for one.
    pub open spec fn of_code(code: u8) -> Option<PayloadType> {
        match code {
            0 => Some(PayloadType::Msg),
            1 => Some(PayloadType::Phoneme),
            2 => Some(PayloadType::Bitmap),
            3 => Some(PayloadType::SoundURL),
            4 => Some(PayloadType::SoundChecksum),
            5 => Some(PayloadType::RouteTags),
            _ => None,
        }
    }

    /// The byte that stands for the kind.
    pub fn code(&self) -> (c: u8)
        ensures
            c == self.wire_code(),
    {
        match self {
            PayloadType::Msg => 0,
            PayloadType::Phoneme => 1,
            PayloadType::Bitmap => 2,
            PayloadType::SoundURL => 3,
            PayloadType::SoundChecksum => 4,
            PayloadType::RouteTags => 5,
        }
    }

    /// The kind that a byte stands for, if it stands for one.
    pub fn from_code(code: u8) -> (r: Option<PayloadType>)
        ensures
            r == PayloadType::of_code(code),
    {
        match code {
            0 => Some(PayloadType::Msg),
            1 => Some(PayloadType::Phoneme),
            2 => Some(PayloadType::Bitmap),
            3 => Some(PayloadType::SoundURL),
            4 => Some(PayloadType::SoundChecksum),
            5 => Some(PayloadType::RouteTags),
            _ => None,
        }
    }

    /// A kind written out and read back is the same kind.
    pub proof fn lemma_code_roundtrip(self)
        ensures
            PayloadType::of_code(self.wire_code()) == Some(self),
    {
    }
}

/// The payloads of a content message as mathematical values.
pub open spec fn items_view(payloads: Seq<(PayloadType, Vec<u8>)>) -> Seq<(PayloadType, Seq<u8>)> {
    payloads.map_values(|item: (PayloadType, Vec<u8>)| (item.0, item.1@))
}

/// The flags byte for the two booleans.
pub open spec fn flags_byte(count_impressions: bool, display_indefinitely: bool) -> u8 {
    if count_impressions {
        if display_indefinitely {
            3
        } else {
            1
        }
    } else {
        if display_indefinitely {
            2
        } else {
            0
        }
    }
}

/// One payload on the wire: kind, length, bytes.
pub open spec fn item_bytes(item: (PayloadType, Seq<u8>)) -> Seq<u8> {
    seq![item.0.wire_code()] + be16_bytes(item.1.len() as u16) + item.1
}

/// The payloads on the wire, one behind the other.
pub open spec fn items_bytes(items: Seq<(PayloadType, Seq<u8>)>) -> Seq<u8>
    decreases items.len(),
{
    if items.len() == 0 {
        Seq::empty()
    } else {
        item_bytes(items[0]) + items_bytes(items.skip(1))
    }
}

/// The nine bytes in front of the payloads.
pub open spec fn header(
    content_id: u16,
    content_channel: u8,
    count_impressions: bool,
    display_indefinitely: bool,
    booking_id: u16,
    priority: u16,
    count: u8,
) -> Seq<u8> {
    be16_bytes(content_id) + seq![
        content_channel,
        flags_byte(count_impressions, display_indefinitely),
    ] + be16_bytes(booking_id) + be16_bytes(priority) + seq![count]
}

/// The payload of a content message.
pub open spec fn payload(
    content_id: u16,
    content_channel: u8,
    count_impressions: bool,
    display_indefinitely: bool,
    booking_id: u16,
    priority: u16,
    payloads: Seq<(PayloadType, Seq<u8>)>,
) -> Seq<u8> {
    header(
        content_id,
        content_channel,
        count_impressions,
        display_indefinitely,
        booking_id,
        priority,
        payloads.len() as u8,
    ) + items_bytes(payloads)
}

/// `count` payloads read from position `pos` on. Of each payload the length
/// is checked first and the kind second; the first broken payload decides the
/// error.
pub open spec fn parse_items(p: Seq<u8>, pos: int, count: nat) -> Result<
    Seq<(PayloadType, Seq<u8>)>,
    PayloadFault,
>
    decreases count,
{
    if count == 0 {
        Ok(Seq::empty())
    } else if pos + 3 > p.len() {
        Err(PayloadFault::LengthOverrun)
    } else {
        let len = be16(p[pos + 1], p[pos + 2]) as int;
        if pos + 3 + len > p.len() {
            Err(PayloadFault::LengthOverrun)
        } else {
            match PayloadType::of_code(p[pos]) {
                None => Err(PayloadFault::UnknownPayloadKind(p[pos])),
                Some(kind) => match parse_items(p, pos + 3 + len, (count - 1) as nat) {
                    Err(fault) => Err(fault),
                    Ok(rest) => Ok(seq![(kind, p.subrange(pos + 3, pos + 3 + len))] + rest),
                },
            }
        }
    }
}

/// The content message that a payload stands for.
pub open spec fn parse(p: Seq<u8>) -> Result<MessageView, DecodeError> {
    if p.len() < 9 {
        Err(DecodeError::Framing)
    } else {
        match parse_items(p, 9, p[8] as nat) {
            Err(detail) => Err(DecodeError::MalformedPayload { msg_type: 32, detail }),
            Ok(payloads) => Ok(
                MessageView::ContentMsg {
                    content_id: be16(p[0], p[1]),
                    content_channel: p[2],
                    count_impressions: p[3] & 1 != 0,
                    display_indefinitely: p[3] & 2 != 0,
                    booking_id: be16(p[4], p[5]),
                    priority: be16(p[6], p[7]),
                    payloads,
                },
            ),
        }
    }
}

/// What is parsed from `pos` on, behind what has been parsed already.
pub open spec fn behind(
    done: Seq<(PayloadType, Seq<u8>)>,
    rest: Result<Seq<(PayloadType, Seq<u8>)>, PayloadFault>,
) -> Result<Seq<(PayloadType, Seq<u8>)>, PayloadFault> {
    match rest {
        Ok(items) => Ok(done + items),
        Err(fault) => Err(fault),
    }
}

/// Reads a ContentMsg from its payload.
pub fn new(payload: Vec<u8>) -> (r: Result<Message, DecodeError>)
    ensures
        decoded(r) == parse(payload@),
{
    if payload.len() < 9 {
        return Err(DecodeError::Framing);
    }
    let p = payload.as_slice();
    let content_id: u16 = read_be16(p[0], p[1]);
    let content_channel: u8 = p[2];
    let count_impressions: bool = (p[3] & 0x1) != 0;
    let display_indefinitely: bool = (p[3] & 0x2) != 0;
    let booking_id: u16 = read_be16(p[4], p[5]);
    let priority: u16 = read_be16(p[6], p[7]);
    let num_payloads: u8 = p[8];

    let mut payloads: Vec<(PayloadType, Vec<u8>)> = Vec::new();
    let mut offset: usize = 9;
    let mut i: u8 = 0;
    assert(items_view(payloads@) =~= Seq::empty());
    assert(behind(Seq::empty(), parse_items(p@, 9, num_payloads as nat)) == parse_items(
        p@,
        9,
        num_payloads as nat,
    )) by {
        let whole = parse_items(p@, 9, num_payloads as nat);
        if whole is Ok {
            assert(Seq::<(PayloadType, Seq<u8>)>::empty() + whole->Ok_0 =~= whole->Ok_0);
        }
    }
    while i < num_payloads
        invariant
            i <= num_payloads,
            9 <= offset <= p@.len(),
            p@ == payload@,
            num_payloads == p@[8],
            parse_items(p@, 9, num_payloads as nat) == behind(
                items_view(payloads@),
                parse_items(p@, offset as int, (num_payloads - i) as nat),
            ),
        decreases num_payloads - i,
    {
        if p.len() - offset < 3 {
            return Err(
                DecodeError::MalformedPayload { msg_type: 32, detail: PayloadFault::LengthOverrun },
            );
        }
        let typ: u8 = p[offset];
        let len: usize = read_be16(p[offset + 1], p[offset + 2]) as usize;
        if p.len() - offset - 3 < len {
            return Err(
                DecodeError::MalformedPayload { msg_type: 32, detail: PayloadFault::LengthOverrun },
            );
        }
        let kind = match PayloadType::from_code(typ) {
            Some(kind) => kind,
            None => {
                return Err(
                    DecodeError::MalformedPayload {
                        msg_type: 32,
                        detail: PayloadFault::UnknownPayloadKind(typ),
                    },
                );
            },
        };
        let bytes = slice_to_vec(slice_subrange(p, offset + 3, offset + 3 + len));
        proof {
            let done = items_view(payloads@);
            let item = (kind, bytes@);
            let next = parse_items(p@, offset + 3 + len, (num_payloads - i - 1) as nat);
            assert(items_view(payloads@.push((kind, bytes))) =~= done.push(item));
            if next is Ok {
                assert(done + (seq![item] + next->Ok_0) =~= done.push(item) + next->Ok_0);
            }
        }
        payloads.push((kind, bytes));
        offset = offset + 3 + len;
        i = i + 1;
    }
    proof {
        assert(items_view(payloads@) + Seq::<(PayloadType, Seq<u8>)>::empty() =~= items_view(
            payloads@,
        ));
    }
    Ok(
        Message::ContentMsg {
            content_id,
            content_channel,
            count_impressions,
            display_indefinitely,
            booking_id,
            priority,
            payloads,
        },
    )
}

/// The wire form of payloads laid end to end is the wire forms laid end to
/// end.
pub proof fn lemma_items_bytes_concat(
    a: Seq<(PayloadType, Seq<u8>)>,
    b: Seq<(PayloadType, Seq<u8>)>,
)
    ensures
        items_bytes(a + b) == items_bytes(a) + items_bytes(b),
    decreases a.len(),
{
    if a.len() == 0 {
        assert(a + b =~= b);
        assert(items_bytes(a) + items_bytes(b) =~= items_bytes(b));
    } else {
        assert((a + b).skip(1) =~= a.skip(1) + b);
        lemma_items_bytes_concat(a.skip(1), b);
        assert(items_bytes(a + b) =~= items_bytes(a) + items_bytes(b));
    }
}

/// One more payload adds its wire form at the end.
pub proof fn lemma_items_bytes_push(items: Seq<(PayloadType, Seq<u8>)>, item: (PayloadType, Seq<u8>))
    ensures
        items_bytes(items.push(item)) == items_bytes(items) + item_bytes(item),
{
    lemma_items_bytes_concat(items, seq![item]);
    assert(items.push(item) =~= items + seq![item]);
    assert(seq![item].skip(1) =~= Seq::<(PayloadType, Seq<u8>)>::empty());
    assert(items_bytes(Seq::<(PayloadType, Seq<u8>)>::empty()) =~= Seq::<u8>::empty());
    assert(items_bytes(seq![item]) =~= item_bytes(item));
}

/// The first `i` payloads take no more room than all of them.
pub proof fn lemma_items_bytes_prefix(items: Seq<(PayloadType, Seq<u8>)>, i: int)
    requires
        0 <= i <= items.len(),
    ensures
        items_bytes(items.take(i)).len() <= items_bytes(items).len(),
{
    lemma_items_bytes_concat(items.take(i), items.skip(i));
    assert(items.take(i) + items.skip(i) =~= items);
}

/// Whether the payloads can be written: at most 255 of them, none longer than
/// its length prefix can say, and all of them together within a frame.
pub fn payloads_fit(payloads: &Vec<(PayloadType, Vec<u8>)>) -> (ok: bool)
    ensures
        ok == ({
            let items = items_view(payloads@);
            &&& items.len() <= u8::MAX
            &&& forall|i: int| 0 <= i < items.len() ==> (#[trigger] items[i]).1.len() <= u16::MAX
            &&& 9 + items_bytes(items).len() <= MAX_PAYLOAD_LEN
        }),
{
    if payloads.len() > 255 {
        return false;
    }
    let ghost items = items_view(payloads@);
    let mut total: usize = 9;
    let mut i: usize = 0;
    assert(items.take(0) =~= Seq::empty());
    while i < payloads.len()
        invariant
            i <= payloads.len(),
            items == items_view(payloads@),
            total == 9 + items_bytes(items.take(i as int)).len(),
            total <= MAX_PAYLOAD_LEN,
            forall|j: int| 0 <= j < i ==> (#[trigger] items[j]).1.len() <= u16::MAX,
        decreases payloads.len() - i,
    {
        let n: usize = payloads[i].1.len();
        proof {
            lemma_items_bytes_push(items.take(i as int), items[i as int]);
            assert(items.take(i as int + 1) =~= items.take(i as int).push(items[i as int]));
            lemma_items_bytes_prefix(items, i as int + 1);
        }
        if n > 65535 {
            return false;
        }
        if n + 3 > MAX_PAYLOAD_LEN - total {
            return false;
        }
        total = total + 3 + n;
        i = i + 1;
    }
    assert(items.take(i as int) =~= items);
    true
}

/// Appends the wire form of the payloads to `out`.
pub fn push_items(out: &mut Vec<u8>, payloads: &Vec<(PayloadType, Vec<u8>)>)
    requires
        forall|i: int|
            0 <= i < payloads@.len() ==> (#[trigger] items_view(payloads@)[i]).1.len() <= u16::MAX,
    ensures
        final(out)@ == old(out)@ + items_bytes(items_view(payloads@)),
{
    let ghost items = items_view(payloads@);
    let mut i: usize = 0;
    assert(items.take(0) =~= Seq::empty());
    assert(out@ =~= old(out)@ + items_bytes(items.take(0)));
    while i < payloads.len()
        invariant
            i <= payloads.len(),
            items == items_view(payloads@),
            forall|j: int| 0 <= j < items.len() ==> (#[trigger] items[j]).1.len() <= u16::MAX,
            out@ == old(out)@ + items_bytes(items.take(i as int)),
        decreases payloads.len() - i,
    {
        let ghost before = out@;
        let item = &payloads[i];
        out.push(item.0.code());
        push_be16(out, item.1.len() as u16);
        push_bytes(out, item.1.as_slice());
        proof {
            lemma_items_bytes_push(items.take(i as int), items[i as int]);
            assert(items.take(i as int + 1) =~= items.take(i as int).push(items[i as int]));
            assert(out@ =~= before + item_bytes(items[i as int]));
            assert(out@ =~= old(out)@ + items_bytes(items.take(i as int + 1)));
        }
        i = i + 1;
    }
    assert(items.take(i as int) =~= items);
}

/// In the flags byte bit 0 says `count_impressions`, bit 1 says
/// `display_indefinitely`, and no other bit is set.
pub proof fn lemma_flags_byte(count_impressions: bool, display_indefinitely: bool)
    ensures
        (flags_byte(count_impressions, display_indefinitely) & 1 != 0) == count_impressions,
        (flags_byte(count_impressions, display_indefinitely) & 2 != 0) == display_indefinitely,
        flags_byte(count_impressions, display_indefinitely) & 0xfc == 0,
{
    assert(0u8 & 1 == 0 && 0u8 & 2 == 0 && 0u8 & 0xfc == 0) by (bit_vector);
    assert(1u8 & 1 != 0 && 1u8 & 2 == 0 && 1u8 & 0xfc == 0) by (bit_vector);
    assert(2u8 & 1 == 0 && 2u8 & 2 != 0 && 2u8 & 0xfc == 0) by (bit_vector);
    assert(3u8 & 1 != 0 && 3u8 & 2 != 0 && 3u8 & 0xfc == 0) by (bit_vector);
}

/// Payloads that were written at `pos` are read back as they were.
pub proof fn lemma_parse_items_of_bytes(p: Seq<u8>, pos: int, items: Seq<(PayloadType, Seq<u8>)>)
    requires
        0 <= pos,
        pos + items_bytes(items).len() <= p.len(),
        p.subrange(pos, pos + items_bytes(items).len()) == items_bytes(items),
        forall|i: int| 0 <= i < items.len() ==> (#[trigger] items[i]).1.len() <= u16::MAX,
    ensures
        parse_items(p, pos, items.len()) == Ok::<Seq<(PayloadType, Seq<u8>)>, PayloadFault>(items),
    decreases items.len(),
{
    if items.len() == 0 {
        assert(items =~= Seq::empty());
    } else {
        let first = items[0];
        let rest = items.skip(1);
        let len = first.1.len() as int;
        let written = p.subrange(pos, pos + items_bytes(items).len());
        assert(items_bytes(items) == item_bytes(first) + items_bytes(rest));
        assert(item_bytes(first).len() == 3 + len);
        assert(p[pos] == written[0]);
        assert(p[pos + 1] == written[1]);
        assert(p[pos + 2] == written[2]);
        lemma_be16_of_bytes(len as u16);
        first.0.lemma_code_roundtrip();
        assert(p.subrange(pos + 3, pos + 3 + len) =~= first.1) by {
            assert forall|k: int| 0 <= k < len implies p[pos + 3 + k] == first.1[k] by {
                assert(p[pos + 3 + k] == written[3 + k]);
            }
        }
        assert(p.subrange(pos + 3 + len, pos + 3 + len + items_bytes(rest).len()) =~= items_bytes(
            rest,
        )) by {
            assert forall|k: int| 0 <= k < items_bytes(rest).len() implies p[pos + 3 + len + k]
                == items_bytes(rest)[k] by {
                assert(p[pos + 3 + len + k] == written[3 + len + k]);
            }
        }
        assert forall|i: int| 0 <= i < rest.len() implies (#[trigger] rest[i]).1.len()
            <= u16::MAX by {
            assert(rest[i] == items[i + 1]);
        }
        lemma_parse_items_of_bytes(p, pos + 3 + len, rest);
        assert(seq![(first.0, first.1)] + rest =~= items);
    }
}

/// Reading the payload of a content message whose payloads fit gives the
/// message back.
pub proof fn lemma_roundtrip(
    content_id: u16,
    content_channel: u8,
    count_impressions: bool,
    display_indefinitely: bool,
    booking_id: u16,
    priority: u16,
    payloads: Seq<(PayloadType, Seq<u8>)>,
)
    requires
        payloads.len() <= u8::MAX,
        forall|i: int| 0 <= i < payloads.len() ==> (#[trigger] payloads[i]).1.len() <= u16::MAX,
    ensures
        parse(
            payload(
                content_id,
                content_channel,
                count_impressions,
                display_indefinitely,
                booking_id,
                priority,
                payloads,
            ),
        ) == Ok::<MessageView, DecodeError>(
            MessageView::ContentMsg {
                content_id,
                content_channel,
                count_impressions,
                display_indefinitely,
                booking_id,
                priority,
                payloads,
            },
        ),
{
    let head = header(
        content_id,
        content_channel,
        count_impressions,
        display_indefinitely,
        booking_id,
        priority,
        payloads.len() as u8,
    );
    let p = head + items_bytes(payloads);
    assert(head.len() == 9);
    lemma_be16_of_bytes(content_id);
    lemma_be16_of_bytes(booking_id);
    lemma_be16_of_bytes(priority);
    lemma_flags_byte(count_impressions, display_indefinitely);
    assert(p.subrange(9, 9 + items_bytes(payloads).len() as int) =~= items_bytes(payloads));
    lemma_parse_items_of_bytes(p, 9, payloads);
}

/// Payloads that were read are as many as asked for, each short enough for
/// its length prefix, and written out again they take no more room than they
/// were read from.
pub proof fn lemma_parsed_items_fit(p: Seq<u8>, pos: int, count: nat)
    requires
        0 <= pos <= p.len(),
        parse_items(p, pos, count) is Ok,
    ensures
        parse_items(p, pos, count)->Ok_0.len() == count,
        forall|i: int|
            0 <= i < count ==> (#[trigger] parse_items(p, pos, count)->Ok_0[i]).1.len() <= u16::MAX,
        pos + items_bytes(parse_items(p, pos, count)->Ok_0).len() <= p.len(),
    decreases count,
{
    let items = parse_items(p, pos, count)->Ok_0;
    if count == 0 {
        assert(items_bytes(items) =~= Seq::<u8>::empty());
    } else {
        let len = be16(p[pos + 1], p[pos + 2]) as int;
        let kind = PayloadType::of_code(p[pos])->0;
        let rest = parse_items(p, pos + 3 + len, (count - 1) as nat)->Ok_0;
        lemma_parsed_items_fit(p, pos + 3 + len, (count - 1) as nat);
        let first = (kind, p.subrange(pos + 3, pos + 3 + len));
        assert(items == seq![first] + rest);
        assert(items.skip(1) =~= rest);
        assert(items[0] == first);
        assert forall|i: int| 0 <= i < count implies (#[trigger] items[i]).1.len() <= u16::MAX by {
            if i > 0 {
                assert(items[i] == rest[i - 1]);
            }
        }
    }
}

/// A content message that was read can be written.
pub proof fn lemma_parsed_fits(p: Seq<u8>)
    requires
        parse(p) is Ok,
    ensures
        parse(p)->Ok_0.fields_fit(),
        parse(p)->Ok_0.type_code() == 32,
        parse(p)->Ok_0.payload().len() <= p.len(),
{
    lemma_parsed_items_fit(p, 9, p[8] as nat);
}

} // verus!
