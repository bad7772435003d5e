use nextbus_sign_server::msg::content::PayloadType;
use nextbus_sign_server::{AppRunningReason, DecodeError, Message};

/// The checksum written out independently of the library.
fn reference_checksum(bytes: &[u8]) -> u16 {
    let mut acc: u16 = 22218;
    for byte in bytes {
        let mut x = *byte;
        for _ in 0..8 {
            if ((x as u16) ^ acc) & 1 != 0 {
                acc = (acc >> 1) ^ 0x8408;
            } else {
                acc >>= 1;
            }
            x >>= 1;
        }
    }
    acc
}

fn sample_messages() -> Vec<Message> {
    vec![
        Message::AckContent { content_id: 0xBEEF, error: 3 },
        Message::Ping { seq_num: 7 },
        Message::Pong { seq_num: 0x2a },
        Message::AppRunning { seq_num: 3, reason: AppRunningReason::Watchdog },
        Message::AppRunning { seq_num: 4, reason: AppRunningReason::Unknown },
        Message::Reboot,
        Message::DebugMsg { msg: String::from("héllo") },
        Message::DebugMsg { msg: String::new() },
        Message::ShellCommand { command: String::from("ls"), command_id: 5 },
        Message::ContentMsg {
            content_id: 0x0011,
            content_channel: 2,
            count_impressions: false,
            display_indefinitely: true,
            booking_id: 0,
            priority: 0,
            payloads: vec![(PayloadType::Msg, b"hi".to_vec())],
        },
        Message::ContentMsg {
            content_id: 0x1234,
            content_channel: 9,
            count_impressions: true,
            display_indefinitely: false,
            booking_id: 0x0102,
            priority: 0xFFFE,
            payloads: vec![
                (PayloadType::Msg, b"Next bus".to_vec()),
                (PayloadType::Phoneme, b"nekst".to_vec()),
                (PayloadType::Bitmap, vec![0xFF, 0x00, 0x81]),
                (PayloadType::SoundURL, b"http://x/y.wav".to_vec()),
                (PayloadType::SoundChecksum, vec![]),
                (PayloadType::RouteTags, b"38R".to_vec()),
            ],
        },
        Message::ContentMsg {
            content_id: 1,
            content_channel: 1,
            count_impressions: true,
            display_indefinitely: true,
            booking_id: 1,
            priority: 1,
            payloads: vec![],
        },
        Message::ContentDelete { content_id: 0x0102 },
        Message::SyncClock {
            seq_num: 1,
            epoch_time_sec: 0x6543_210F,
            zone_offset: 0xF8,
            tz: String::from("PST"),
        },
        Message::FirmwareCode {
            seq: 2,
            dest_addr: 0x1000,
            num_bytes: 3,
            code_chunk: vec![0xDE, 0xAD, 0xBE],
        },
        Message::FirmwareCode { seq: 0, dest_addr: 0, num_bytes: 0, code_chunk: vec![] },
        Message::AuthRequest { method: 1 },
        Message::AuthConfirm { conf_code: 1, address: [192, 168, 0, 7], port: 4502 },
        Message::GetCfgParam { param: 4 },
        Message::AckGetCfgParam { param: 4, error: 0, value: 200 },
        Message::SetCfgParam { param: 4, value: 201 },
        Message::AckSetCfgParam { param: 4, error: 1, value: 201 },
        Message::ResetCfgParams,
        Message::AckResetCfgParams,
        Message::StopCfg {
            stop_id: 9,
            title: String::from("Main St"),
            phoneme: String::from("mayn"),
            route_tag: String::from("38R"),
            snd_md5: String::from("0123abcd"),
            snd_url: String::from("http://x/y.wav"),
            zero_countdown_msg: String::from("Due"),
        },
        Message::AckStopCfg { stop_id: 9, error: 0 },
        Message::ClearStopCfg,
        Message::AckClearStopCfg,
    ]
}

#[test]
fn checksum_of_nothing_is_the_initial_value() {
    assert_eq!(Message::cksum(&[]), 22218);
    assert_eq!(Message::cksum(&[]), 0x56CA);
}

#[test]
fn checksum_known_values() {
    assert_eq!(Message::cksum(&[0x00]), 0x6900);
    assert_eq!(Message::cksum(&[0x01]), 0x7889);
    assert_eq!(Message::cksum(&[0xFF]), 0x6678);
    assert_eq!(Message::cksum(b"123456789"), 0xC435);
    assert_eq!(Message::cksum(&[0x0A, 0x00, 0x06, 0x07]), 0x4E8C);
}

#[test]
fn checksum_agrees_with_the_bit_serial_definition() {
    let mut data: Vec<u8> = Vec::new();
    for i in 0..600u32 {
        data.push((i.wrapping_mul(37) ^ (i >> 3)) as u8);
        assert_eq!(Message::cksum(&data), reference_checksum(&data));
    }
}

#[test]
fn ping_encode() {
    let frame = Message::Ping { seq_num: 7 }.encode();
    let sum = reference_checksum(&[0x0A, 0x00, 0x06, 0x07]);
    assert_eq!(frame, vec![0x0A, 0x00, 0x06, 0x07, (sum >> 8) as u8, (sum & 0xFF) as u8]);
    assert_eq!(frame, vec![0x0A, 0x00, 0x06, 0x07, 0x4E, 0x8C]);
}

#[test]
fn reboot_round_trip() {
    let frame = Message::Reboot.encode();
    assert_eq!(frame, vec![0x06, 0x00, 0x05, 0x7F, 0xB3]);
    assert_eq!(Message::decode(&frame), Ok(Message::Reboot));
}

#[test]
fn unknown_type() {
    let sum = reference_checksum(&[0xFF, 0x00, 0x05]);
    let frame = vec![0xFF, 0x00, 0x05, (sum >> 8) as u8, (sum & 0xFF) as u8];
    assert_eq!(frame, vec![0xFF, 0x00, 0x05, 0x6F, 0x99]);
    assert_eq!(Message::decode(&frame), Err(DecodeError::UnknownType(255)));
}

#[test]
fn checksum_mismatch_when_last_byte_flipped() {
    for msg in sample_messages() {
        let mut frame = msg.encode();
        let n = frame.len();
        let computed = reference_checksum(&frame[..n - 2]);
        frame[n - 1] ^= 0xFF;
        let declared = ((frame[n - 2] as u16) << 8) | frame[n - 1] as u16;
        assert_ne!(declared, computed);
        assert_eq!(
            Message::decode(&frame),
            Err(DecodeError::ChecksumMismatch { declared, computed })
        );
    }
}

#[test]
fn checksum_mismatch_reports_both_values() {
    let frame = vec![0x06, 0x00, 0x05, 0x7F, 0xB2];
    assert_eq!(
        Message::decode(&frame),
        Err(DecodeError::ChecksumMismatch { declared: 0x7FB2, computed: 0x7FB3 })
    );
}

#[test]
fn content_msg_with_one_text_payload() {
    let msg = Message::ContentMsg {
        content_id: 0x0011,
        content_channel: 2,
        count_impressions: false,
        display_indefinitely: true,
        booking_id: 0,
        priority: 0,
        payloads: vec![(PayloadType::Msg, b"hi".to_vec())],
    };
    let payload = vec![
        0x00, 0x11, 0x02, 0x02, 0x00, 0x00, 0x00, 0x00, 0x01, 0x00, 0x00, 0x02, 0x68, 0x69,
    ];
    assert_eq!(msg.get_type(), 0x20);
    assert_eq!(msg.get_payload(), payload);
    let mut expected = vec![0x20, 0x00, 0x13];
    expected.extend_from_slice(&payload);
    let sum = reference_checksum(&expected);
    expected.push((sum >> 8) as u8);
    expected.push((sum & 0xFF) as u8);
    let frame = msg.clone().encode();
    assert_eq!(frame, expected);
    assert_eq!(&frame[frame.len() - 2..], &[0xB6, 0x4E]);
    assert_eq!(Message::decode(&frame), Ok(msg));
}

#[test]
fn stop_cfg_field_order() {
    let msg = Message::StopCfg {
        stop_id: 9,
        title: String::from("Main St"),
        phoneme: String::from("mayn"),
        route_tag: String::from("38R"),
        snd_md5: String::from("0123abcd"),
        snd_url: String::from("http://x/y.wav"),
        zero_countdown_msg: String::from("Due"),
    };
    let mut payload: Vec<u8> = vec![9, 7, 4];
    payload.extend_from_slice(b"Main St");
    payload.extend_from_slice(b"mayn");
    payload.push(3);
    payload.extend_from_slice(b"Due");
    payload.push(3);
    payload.extend_from_slice(b"38R");
    payload.push(8);
    payload.extend_from_slice(b"0123abcd");
    payload.push(14);
    payload.extend_from_slice(b"http://x/y.wav");
    assert_eq!(msg.get_type(), 14);
    assert_eq!(msg.get_payload(), payload);

    let frame = msg.clone().encode();
    assert_eq!(&frame[..3], &[0x0E, 0x00, 0x33]);
    assert_eq!(&frame[3..frame.len() - 2], &payload[..]);
    assert_eq!(&frame[frame.len() - 2..], &[0x73, 0x8F]);
    assert_eq!(Message::decode(&frame), Ok(msg));
}

#[test]
fn stop_cfg_texts_land_in_their_own_fields() {
    let mut bytes: Vec<u8> = vec![0x0E, 0x00, 0x00, 1, 1, 1, b'T', b'P', 1, b'Z', 1, b'R', 1, b'M', 1, b'U'];
    bytes[2] = (bytes.len() + 2) as u8;
    let sum = reference_checksum(&bytes);
    bytes.push((sum >> 8) as u8);
    bytes.push((sum & 0xFF) as u8);
    assert_eq!(
        Message::decode(&bytes),
        Ok(Message::StopCfg {
            stop_id: 1,
            title: String::from("T"),
            phoneme: String::from("P"),
            route_tag: String::from("R"),
            snd_md5: String::from("M"),
            snd_url: String::from("U"),
            zero_countdown_msg: String::from("Z"),
        })
    );
}

#[test]
fn every_variant_round_trips() {
    for msg in sample_messages() {
        assert!(msg.is_well_formed());
        let frame = msg.clone().encode();
        assert_eq!(Message::decode(&frame), Ok(msg.clone()));
        let again = Message::decode(&frame).unwrap().encode();
        assert_eq!(again, frame);
    }
}

#[test]
fn length_field_is_the_frame_length() {
    for msg in sample_messages() {
        let payload = msg.get_payload();
        let frame = msg.encode();
        let declared = ((frame[1] as usize) << 8) | frame[2] as usize;
        assert_eq!(declared, frame.len());
        assert_eq!(frame.len(), payload.len() + 5);
    }
}

#[test]
fn frame_is_type_length_payload_checksum() {
    for msg in sample_messages() {
        let t = msg.get_type();
        let payload = msg.get_payload();
        let frame = msg.encode();
        let n = frame.len();
        assert_eq!(frame[0], t);
        assert_eq!(&frame[3..n - 2], &payload[..]);
        let sum = reference_checksum(&frame[..n - 2]);
        assert_eq!(frame[n - 2], (sum >> 8) as u8);
        assert_eq!(frame[n - 1], (sum & 0xFF) as u8);
    }
}

#[test]
fn type_codes() {
    let codes: Vec<u8> = sample_messages().iter().map(|m| m.get_type()).collect();
    assert_eq!(
        codes,
        vec![
            33, 10, 11, 8, 8, 6, 28, 28, 80, 32, 32, 32, 36, 26, 31, 31, 50, 52, 20, 21, 18, 19,
            22, 23, 14, 15, 16, 17
        ]
    );
}

#[test]
fn fixed_payloads() {
    assert_eq!(Message::AckContent { content_id: 0xBEEF, error: 3 }.get_payload(), vec![0xBE, 0xEF, 3]);
    assert_eq!(Message::ContentDelete { content_id: 0x0102 }.get_payload(), vec![1, 2]);
    assert_eq!(
        Message::AppRunning { seq_num: 3, reason: AppRunningReason::Watchdog }.get_payload(),
        vec![3, 2]
    );
    assert_eq!(
        Message::AuthConfirm { conf_code: 1, address: [192, 168, 0, 7], port: 4502 }.get_payload(),
        vec![1, 192, 168, 0, 7, 0x11, 0x96]
    );
    assert_eq!(
        Message::SyncClock {
            seq_num: 1,
            epoch_time_sec: 0x6543_210F,
            zone_offset: 0xF8,
            tz: String::from("PST"),
        }
        .get_payload(),
        vec![1, 0x65, 0x43, 0x21, 0x0F, 0xF8, 3, b'P', b'S', b'T']
    );
    assert_eq!(
        Message::ShellCommand { command: String::from("ls"), command_id: 5 }.get_payload(),
        vec![5, 0, 2, b'l', b's']
    );
    assert_eq!(
        Message::FirmwareCode { seq: 2, dest_addr: 0x1000, num_bytes: 3, code_chunk: vec![0xDE, 0xAD, 0xBE] }
            .get_payload(),
        vec![2, 0x10, 0x00, 0, 3, 0xDE, 0xAD, 0xBE]
    );
    assert_eq!(Message::AckSetCfgParam { param: 4, error: 1, value: 201 }.get_payload(), vec![4, 1, 201]);
    assert_eq!(Message::Reboot.get_payload(), Vec::<u8>::new());
}

#[test]
fn known_frames() {
    assert_eq!(Message::Pong { seq_num: 0x2a }.encode(), vec![0x0b, 0x00, 0x06, 0x2a, 0xa8, 0xd0]);
    assert_eq!(
        Message::AppRunning { seq_num: 3, reason: AppRunningReason::Watchdog }.encode(),
        vec![0x08, 0x00, 0x07, 0x03, 0x02, 0x46, 0x0c]
    );
    assert_eq!(
        Message::DebugMsg { msg: String::from("héllo") }.encode(),
        vec![0x1c, 0x00, 0x0b, 0x68, 0xc3, 0xa9, 0x6c, 0x6c, 0x6f, 0x70, 0x63]
    );
    assert_eq!(
        Message::ShellCommand { command: String::from("ls"), command_id: 5 }.encode(),
        vec![0x50, 0x00, 0x0a, 0x05, 0x00, 0x02, 0x6c, 0x73, 0xab, 0x40]
    );
    assert_eq!(
        Message::AuthConfirm { conf_code: 1, address: [192, 168, 0, 7], port: 4502 }.encode(),
        vec![0x34, 0x00, 0x0c, 0x01, 0xc0, 0xa8, 0x00, 0x07, 0x11, 0x96, 0x53, 0xaa]
    );
}

#[test]
fn flags_byte_has_only_the_two_low_bits() {
    for (count, forever, flags) in
        [(false, false, 0u8), (true, false, 1), (false, true, 2), (true, true, 3)]
    {
        let msg = Message::ContentMsg {
            content_id: 7,
            content_channel: 1,
            count_impressions: count,
            display_indefinitely: forever,
            booking_id: 0,
            priority: 0,
            payloads: vec![],
        };
        let frame = msg.encode();
        assert_eq!(frame[6], flags);
        assert_eq!(frame[6] & 0xFC, 0);
        assert_eq!(frame[6] & 1 != 0, count);
        assert_eq!(frame[6] & 2 != 0, forever);
    }
}

#[test]
fn reserved_flag_bits_are_ignored_when_read() {
    let mut bytes: Vec<u8> = vec![0x20, 0x00, 0x0E, 0, 7, 1, 0xFD, 0, 0, 0, 0, 0];
    let sum = reference_checksum(&bytes);
    bytes.push((sum >> 8) as u8);
    bytes.push((sum & 0xFF) as u8);
    assert_eq!(
        Message::decode(&bytes),
        Ok(Message::ContentMsg {
            content_id: 7,
            content_channel: 1,
            count_impressions: true,
            display_indefinitely: false,
            booking_id: 0,
            priority: 0,
            payloads: vec![],
        })
    );
}

#[test]
fn any_changed_byte_outside_the_length_field_is_caught() {
    for msg in sample_messages() {
        let frame = msg.encode();
        for i in 0..frame.len() {
            if i == 1 || i == 2 {
                continue;
            }
            for mask in [0x01u8, 0x80, 0xFF, 0x5A] {
                let mut bad = frame.clone();
                bad[i] ^= mask;
                match Message::decode(&bad) {
                    Err(DecodeError::ChecksumMismatch { declared, computed }) => {
                        assert_ne!(declared, computed)
                    }
                    other => panic!("byte {} changed, got {:?}", i, other),
                }
            }
        }
    }
}

#[test]
fn bytes_behind_the_frame_are_left_alone() {
    let mut bytes = Message::Ping { seq_num: 7 }.encode();
    bytes.extend_from_slice(&Message::Reboot.encode());
    assert_eq!(Message::decode(&bytes), Ok(Message::Ping { seq_num: 7 }));
    assert_eq!(Message::decode(&bytes[6..]), Ok(Message::Reboot));
}

#[test]
fn spare_payload_bytes_of_fixed_layouts_are_ignored() {
    let mut bytes: Vec<u8> = vec![0x0A, 0x00, 0x08, 7, 0xAA, 0xBB];
    let sum = reference_checksum(&bytes);
    bytes.push((sum >> 8) as u8);
    bytes.push((sum & 0xFF) as u8);
    assert_eq!(Message::decode(&bytes), Ok(Message::Ping { seq_num: 7 }));
}

#[test]
fn app_running_reasons() {
    let known = [
        AppRunningReason::Undiscernable,
        AppRunningReason::Powerup,
        AppRunningReason::Watchdog,
        AppRunningReason::ServerOrder,
        AppRunningReason::NewFirmware,
        AppRunningReason::NoServerContact,
        AppRunningReason::Redirected,
        AppRunningReason::DroppedConnection,
        AppRunningReason::BadAuthentication,
        AppRunningReason::FatalError,
    ];
    for (code, reason) in known.iter().enumerate() {
        assert_eq!(AppRunningReason::from(code as u8), *reason);
        assert_eq!(reason.code(), code as u8);
    }
    for code in 10..=255u8 {
        assert_eq!(AppRunningReason::from(code), AppRunningReason::Unknown);
    }
    assert_eq!(AppRunningReason::Unknown.code(), 255);
}

#[test]
fn payload_kinds() {
    let kinds = [
        (0u8, PayloadType::Msg),
        (1, PayloadType::Phoneme),
        (2, PayloadType::Bitmap),
        (3, PayloadType::SoundURL),
        (4, PayloadType::SoundChecksum),
        (5, PayloadType::RouteTags),
    ];
    for (code, kind) in kinds {
        assert_eq!(kind.code(), code);
        assert_eq!(PayloadType::from_code(code), Some(kind));
    }
    for code in 6..=255u8 {
        assert_eq!(PayloadType::from_code(code), None);
    }
}

#[test]
fn text_is_read_as_utf8() {
    let mut bytes: Vec<u8> = vec![0x1C, 0x00, 0x0B, 0x68, 0xC3, 0xA9, 0x6C, 0x6C, 0x6F];
    let sum = reference_checksum(&bytes);
    bytes.push((sum >> 8) as u8);
    bytes.push((sum & 0xFF) as u8);
    match Message::decode(&bytes) {
        Ok(Message::DebugMsg { msg }) => {
            assert_eq!(msg, "héllo");
            assert_eq!(msg.chars().count(), 5);
            assert_eq!(msg.len(), 6);
        }
        other => panic!("{:?}", other),
    }
}

#[test]
fn whatever_decodes_can_be_encoded_again() {
    let payloads: Vec<(u8, Vec<u8>)> = vec![
        (8, vec![3, 200, 9, 9]),
        (10, vec![7, 1, 2, 3]),
        (14, vec![1, 1, 1, b'T', b'P', 0, 0, 0, 0, 0xFF, 0xFF]),
        (26, vec![1, 0, 0, 0, 1, 0, 1, b'Z', b'!', b'!']),
        (28, vec![0xF0, 0x9F, 0x9A, 0x8C]),
        (31, vec![2, 0, 1, 0, 2, 0xAA, 0xBB]),
        (32, vec![0, 1, 2, 0xFF, 0, 3, 0, 4, 1, 5, 0, 1, b'x', 0xEE]),
        (52, vec![1, 10, 0, 0, 1, 0x1F, 0x90, 0xEE]),
        (80, vec![1, 0, 2, b'l', b's', b'!']),
    ];
    for (t, payload) in payloads {
        let n = payload.len() + 5;
        let mut frame = vec![t, (n >> 8) as u8, (n & 0xFF) as u8];
        frame.extend_from_slice(&payload);
        let sum = reference_checksum(&frame);
        frame.push((sum >> 8) as u8);
        frame.push((sum & 0xFF) as u8);

        let msg = Message::decode(&frame).unwrap();
        assert_eq!(msg.get_type(), t);
        assert!(msg.is_well_formed());
        assert!(msg.get_payload().len() <= payload.len());
        let again = msg.clone().encode();
        assert_eq!(Message::decode(&again), Ok(msg));
    }
}
