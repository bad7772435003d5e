use nextbus_sign_server::msg::content::PayloadType;
use nextbus_sign_server::session::{
    operator_notice, reader_step, remaining_len, writer_step, ReaderStep, WriterStep,
};
use nextbus_sign_server::wire::{push_be16, push_be32, read_be16, read_be32};
use nextbus_sign_server::{DecodeError, IoCause, Message, PayloadFault};

#[test]
fn header_tells_how_much_follows() {
    assert_eq!(remaining_len(&[0x0A, 0x00, 0x06]), Ok(3));
    assert_eq!(remaining_len(&[0x06, 0x00, 0x05]), Ok(2));
    assert_eq!(remaining_len(&[0x20, 0xFF, 0xFF]), Ok(65532));
    assert_eq!(remaining_len(&[0x20, 0x01, 0x00]), Ok(253));
    assert_eq!(remaining_len(&[0x0A, 0x00, 0x04]), Err(DecodeError::Framing));
    assert_eq!(remaining_len(&[0x0A, 0x00, 0x00]), Err(DecodeError::Framing));
    assert_eq!(remaining_len(&[0x0A, 0x00]), Err(DecodeError::Io(IoCause::UnexpectedEof)));
    assert_eq!(remaining_len(&[]), Err(DecodeError::Io(IoCause::UnexpectedEof)));
}

#[test]
fn header_and_rest_make_the_frame() {
    let frame = Message::ShellCommand { command: String::from("uptime"), command_id: 1 }.encode();
    let n = remaining_len(&frame[..3]).unwrap();
    assert_eq!(3 + n, frame.len());
}

#[test]
fn reader_delivers_messages() {
    assert_eq!(reader_step(Ok(Message::Reboot)), ReaderStep::Deliver(Message::Reboot));
    assert_eq!(
        reader_step(Ok(Message::Ping { seq_num: 1 })),
        ReaderStep::Deliver(Message::Ping { seq_num: 1 })
    );
}

#[test]
fn reader_skips_what_leaves_the_stream_aligned() {
    assert_eq!(
        reader_step(Err(DecodeError::UnknownType(99))),
        ReaderStep::Skip(DecodeError::UnknownType(99))
    );
    let e = DecodeError::MalformedPayload { msg_type: 28, detail: PayloadFault::InvalidText };
    assert_eq!(reader_step(Err(e)), ReaderStep::Skip(e));
}

#[test]
fn reader_stops_on_what_does_not() {
    for e in [
        DecodeError::Io(IoCause::UnexpectedEof),
        DecodeError::Io(IoCause::Other),
        DecodeError::Framing,
        DecodeError::ChecksumMismatch { declared: 0x7FB2, computed: 0x7FB3 },
    ] {
        assert_eq!(reader_step(Err(e)), ReaderStep::Stop(e));
    }
}

#[test]
fn reader_follows_a_stream_of_frames() {
    let mut stream: Vec<u8> = Vec::new();
    stream.extend_from_slice(&Message::Ping { seq_num: 1 }.encode());
    stream.extend_from_slice(&[0xFF, 0x00, 0x05, 0x6F, 0x99]);
    stream.extend_from_slice(&Message::Pong { seq_num: 2 }.encode());
    stream.extend_from_slice(&[0x06, 0x00, 0x05, 0x00, 0x00]);
    stream.extend_from_slice(&Message::Reboot.encode());

    let mut delivered: Vec<Message> = Vec::new();
    let mut skipped: Vec<DecodeError> = Vec::new();
    let mut pos = 0;
    let stopped = loop {
        let outcome = match remaining_len(&stream[pos..(pos + 3).min(stream.len())]) {
            Err(e) => Err(e),
            Ok(n) => {
                let end = pos + 3 + n;
                let r = Message::decode(&stream[pos..end.min(stream.len())]);
                pos = end;
                r
            }
        };
        match reader_step(outcome) {
            ReaderStep::Deliver(m) => delivered.push(m),
            ReaderStep::Skip(e) => skipped.push(e),
            ReaderStep::Stop(e) => break e,
        }
    };
    assert_eq!(delivered, vec![Message::Ping { seq_num: 1 }, Message::Pong { seq_num: 2 }]);
    assert_eq!(skipped, vec![DecodeError::UnknownType(255)]);
    assert_eq!(stopped, DecodeError::ChecksumMismatch { declared: 0, computed: 0x7FB3 });
}

#[test]
fn writer_frames_well_formed_messages() {
    assert_eq!(
        writer_step(Message::Ping { seq_num: 7 }),
        WriterStep::Write(vec![0x0A, 0x00, 0x06, 0x07, 0x4E, 0x8C])
    );
    let msg = Message::DebugMsg { msg: "x".repeat(65530) };
    match writer_step(msg) {
        WriterStep::Write(bytes) => {
            assert_eq!(bytes.len(), 65535);
            assert_eq!(&bytes[..3], &[28, 0xFF, 0xFF]);
        }
        other => panic!("{:?}", other),
    }
}

#[test]
fn writer_hands_back_what_cannot_be_framed() {
    let too_long = vec![
        Message::DebugMsg { msg: "x".repeat(65531) },
        Message::ShellCommand { command: "x".repeat(65528), command_id: 0 },
        Message::SyncClock { seq_num: 0, epoch_time_sec: 0, zone_offset: 0, tz: "z".repeat(256) },
        Message::FirmwareCode { seq: 0, dest_addr: 0, num_bytes: 2, code_chunk: vec![1, 2, 3] },
        Message::FirmwareCode { seq: 0, dest_addr: 0, num_bytes: 65526, code_chunk: vec![0; 65526] },
        Message::ContentMsg {
            content_id: 0,
            content_channel: 0,
            count_impressions: false,
            display_indefinitely: false,
            booking_id: 0,
            priority: 0,
            payloads: vec![(PayloadType::Msg, vec![]); 256],
        },
        Message::ContentMsg {
            content_id: 0,
            content_channel: 0,
            count_impressions: false,
            display_indefinitely: false,
            booking_id: 0,
            priority: 0,
            payloads: vec![(PayloadType::Bitmap, vec![0; 65536])],
        },
        Message::ContentMsg {
            content_id: 0,
            content_channel: 0,
            count_impressions: false,
            display_indefinitely: false,
            booking_id: 0,
            priority: 0,
            payloads: vec![(PayloadType::Bitmap, vec![0; 40000]), (PayloadType::Bitmap, vec![0; 40000])],
        },
        Message::StopCfg {
            stop_id: 1,
            title: "t".repeat(256),
            phoneme: String::new(),
            route_tag: String::new(),
            snd_md5: String::new(),
            snd_url: String::new(),
            zero_countdown_msg: String::new(),
        },
        Message::StopCfg {
            stop_id: 1,
            title: String::new(),
            phoneme: String::new(),
            route_tag: String::new(),
            snd_md5: String::new(),
            snd_url: "é".repeat(128),
            zero_countdown_msg: String::new(),
        },
    ];
    for msg in too_long {
        assert!(!msg.is_well_formed());
        assert_eq!(writer_step(msg.clone()), WriterStep::Reject(msg));
    }
}

#[test]
fn limits_of_what_can_be_framed() {
    let fits = vec![
        Message::ShellCommand { command: "x".repeat(65527), command_id: 0 },
        Message::SyncClock { seq_num: 0, epoch_time_sec: 0, zone_offset: 0, tz: "z".repeat(255) },
        Message::FirmwareCode { seq: 0, dest_addr: 0, num_bytes: 65525, code_chunk: vec![0; 65525] },
        Message::ContentMsg {
            content_id: 0,
            content_channel: 0,
            count_impressions: false,
            display_indefinitely: false,
            booking_id: 0,
            priority: 0,
            payloads: vec![(PayloadType::Msg, vec![]); 255],
        },
        Message::ContentMsg {
            content_id: 0,
            content_channel: 0,
            count_impressions: false,
            display_indefinitely: false,
            booking_id: 0,
            priority: 0,
            payloads: vec![(PayloadType::Bitmap, vec![7; 65518])],
        },
    ];
    for msg in fits {
        assert!(msg.is_well_formed());
        let frame = msg.clone().encode();
        assert_eq!(((frame[1] as usize) << 8) | frame[2] as usize, frame.len());
        assert_eq!(Message::decode(&frame), Ok(msg));
    }
}

#[test]
fn operator_text_becomes_a_content_message() {
    let msg = operator_notice("hi");
    assert_eq!(
        msg,
        Message::ContentMsg {
            content_id: 0x11,
            content_channel: 2,
            count_impressions: false,
            display_indefinitely: true,
            booking_id: 0,
            priority: 0,
            payloads: vec![(PayloadType::Msg, b"hi".to_vec())],
        }
    );
    assert_eq!(
        msg.get_payload(),
        vec![0x00, 0x11, 0x02, 0x02, 0x00, 0x00, 0x00, 0x00, 0x01, 0x00, 0x00, 0x02, 0x68, 0x69]
    );
}

#[test]
fn big_endian_integers() {
    assert_eq!(read_be16(0x12, 0x34), 0x1234);
    assert_eq!(read_be16(0xFF, 0xFF), 0xFFFF);
    assert_eq!(read_be32(0x12, 0x34, 0x56, 0x78), 0x1234_5678);
    assert_eq!(read_be32(0xFF, 0xFF, 0xFF, 0xFF), 0xFFFF_FFFF);
    let mut out: Vec<u8> = vec![9];
    push_be16(&mut out, 0x1234);
    push_be32(&mut out, 0x89AB_CDEF);
    assert_eq!(out, vec![9, 0x12, 0x34, 0x89, 0xAB, 0xCD, 0xEF]);
}
