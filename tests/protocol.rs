use tangara::frame::{encode_frame, ChannelId, Frame, Opcode, SendError};
use tangara::protocol::{Event, Protocol};

fn frame(opcode: Opcode, channel: u8, data: &[u8]) -> Frame {
    Frame { opcode, channel: ChannelId(channel), data: data.to_vec() }
}

fn only_frame(events: Vec<Event>) -> Frame {
    assert_eq!(events.len(), 1);
    match events.into_iter().next().unwrap() {
        Event::Frame(f) => f,
        Event::UnframedLine(_) => panic!("expected a frame"),
    }
}

#[test]
fn header_byte_decoding() {
    assert!(matches!(Opcode::from_header_byte(0x05), Some(Opcode::Data)));
    assert!(matches!(Opcode::from_header_byte(0x1f), Some(Opcode::Shutdown)));
    assert!(matches!(Opcode::from_header_byte(0x25), Some(Opcode::Open)));
    assert!(Opcode::from_header_byte(0x30).is_none());
    assert!(Opcode::from_header_byte(0xf0).is_none());
    assert_eq!(ChannelId::from_header_byte(0x25).0, 5);
    assert_eq!(ChannelId::from_header_byte(0xff).0, 15);
}

#[test]
fn header_byte_encoding() {
    assert_eq!(Opcode::Data.to_header_byte(), 0x00);
    assert_eq!(Opcode::Shutdown.to_header_byte(), 0x10);
    assert_eq!(Opcode::Open.to_header_byte(), 0x20);
    assert_eq!(ChannelId(7).to_header_byte(), 7);
    assert_eq!(ChannelId(0x37).to_header_byte(), 7);
}

#[test]
fn encode_exact_bytes() {
    let bytes = encode_frame(&frame(Opcode::Open, 3, &[1, 2, 3])).ok().unwrap();
    // header 0x23, checksum 0x23 + 1 + 2 + 3 = 0x29
    assert_eq!(bytes, vec![0xfd, 4, 0x23, 1, 2, 3, 0x29, 0xfe]);
}

#[test]
fn encode_checksum_wraps() {
    let bytes = encode_frame(&frame(Opcode::Data, 1, &[0xff, 0x02])).ok().unwrap();
    assert_eq!(bytes, vec![0xfd, 3, 0x01, 0xff, 0x02, 0x02, 0xfe]);
}

#[test]
fn encode_rejects_long_payload() {
    assert!(encode_frame(&frame(Opcode::Data, 0, &[0u8; 254])).is_ok());
    let r = encode_frame(&frame(Opcode::Data, 0, &[0u8; 255]));
    assert!(matches!(r, Err(SendError::DataTooLong)));
}

#[test]
fn round_trip_frames() {
    let payloads: Vec<Vec<u8>> = vec![
        vec![],
        vec![0x0a],
        vec![0xfd, 0xfe, 0x00],
        (0..=252u8).collect(),
        (0..253).map(|i| (i * 7) as u8).collect(),
        vec![0x55; 254],
    ];
    for opcode in [Opcode::Data, Opcode::Shutdown, Opcode::Open] {
        for channel in [0u8, 1, 9, 15] {
            for data in &payloads {
                let bytes = encode_frame(&frame(opcode, channel, data)).ok().unwrap();
                let mut p = Protocol::new();
                let f = only_frame(p.push_bytes(&bytes));
                assert_eq!(f.opcode.to_header_byte(), opcode.to_header_byte());
                assert_eq!(f.channel.0, channel);
                assert_eq!(&f.data, data);
            }
        }
    }
}

#[test]
fn corrupted_checksum_always_rejected() {
    let bytes = encode_frame(&frame(Opcode::Data, 2, b"hello")).ok().unwrap();
    let at = bytes.len() - 2;
    for wrong in 0..=255u8 {
        if wrong == bytes[at] {
            continue;
        }
        let mut bad = bytes.clone();
        bad[at] = wrong;
        let mut p = Protocol::new();
        assert!(p.push_bytes(&bad).is_empty());
        // the parser is back between frames
        let f = only_frame(p.push_bytes(&bytes));
        assert_eq!(f.data, b"hello".to_vec());
    }
}

#[test]
fn corrupted_header_or_payload_always_rejected() {
    let bytes = encode_frame(&frame(Opcode::Open, 4, &[10, 20, 30])).ok().unwrap();
    for i in 2..bytes.len() - 2 {
        for mask in [0x01u8, 0x10, 0x80, 0xff] {
            let mut bad = bytes.clone();
            bad[i] ^= mask;
            let mut p = Protocol::new();
            assert!(p.push_bytes(&bad).is_empty());
        }
    }
}

#[test]
fn bad_end_byte_rejected() {
    let mut bytes = encode_frame(&frame(Opcode::Data, 0, &[9])).ok().unwrap();
    let last = bytes.len() - 1;
    bytes[last] = 0x00;
    let mut p = Protocol::new();
    assert!(p.push_bytes(&bytes).is_empty());
}

#[test]
fn zero_length_rejected() {
    for wire in [0u8, 1, 0xfd, 0xfe, 0xff] {
        for end in [0u8, 0xfe, 0xff] {
            let mut p = Protocol::new();
            assert!(p.push_bytes(&[0xfd, 0x00, wire, end]).is_empty());
            // a following line still comes out whole
            let events = p.push_bytes(b"ok\n");
            assert_eq!(events.len(), 1);
            assert!(matches!(&events[0], Event::UnframedLine(l) if l == b"ok\n"));
        }
    }
}

#[test]
fn unknown_opcode_rejected() {
    for header in [0x30u8, 0x3f, 0x40, 0xa5, 0xf0] {
        let cksum = header.wrapping_add(1).wrapping_add(2);
        let mut p = Protocol::new();
        assert!(p.push_bytes(&[0xfd, 3, header, 1, 2, cksum, 0xfe]).is_empty());
    }
}

#[test]
fn unframed_line_exact_bytes() {
    let mut p = Protocol::new();
    let events = p.push_bytes(b"I (123) boot: hello\n");
    assert_eq!(events.len(), 1);
    assert!(matches!(&events[0], Event::UnframedLine(l) if l == b"I (123) boot: hello\n"));
}

#[test]
fn unframed_lines_in_sequence() {
    let mut p = Protocol::new();
    let events = p.push_bytes(b"one\ntwo\n\nthree");
    assert_eq!(events.len(), 3);
    assert!(matches!(&events[0], Event::UnframedLine(l) if l == b"one\n"));
    assert!(matches!(&events[1], Event::UnframedLine(l) if l == b"two\n"));
    assert!(matches!(&events[2], Event::UnframedLine(l) if l == b"\n"));
    let events = p.push_bytes(b"\n");
    assert!(matches!(&events[0], Event::UnframedLine(l) if l == b"three\n"));
}

#[test]
fn overlong_line_is_capped() {
    let mut input = vec![b'x'; 2000];
    input.push(b'\n');
    let mut p = Protocol::new();
    let events = p.push_bytes(&input);
    assert_eq!(events.len(), 1);
    assert!(matches!(&events[0], Event::UnframedLine(l) if l.len() == 1024 && l.iter().all(|b| *b == b'x')));
}

#[test]
fn line_of_exactly_cap_keeps_newline_out() {
    let mut input = vec![b'y'; 1023];
    input.push(b'\n');
    let mut p = Protocol::new();
    let events = p.push_bytes(&input);
    assert!(matches!(&events[0], Event::UnframedLine(l) if l.len() == 1024 && l[1023] == b'\n'));
}

#[test]
fn frame_inside_a_line() {
    let mut input = b"ab".to_vec();
    input.extend(encode_frame(&frame(Opcode::Shutdown, 6, b"z")).ok().unwrap());
    input.extend(b"c\n");
    let mut p = Protocol::new();
    let events = p.push_bytes(&input);
    assert_eq!(events.len(), 2);
    assert!(matches!(&events[0], Event::Frame(f) if f.channel.0 == 6 && f.data == b"z".to_vec()));
    assert!(matches!(&events[1], Event::UnframedLine(l) if l == b"abc\n"));
}

#[test]
fn byte_at_a_time_matches_chunk() {
    let bytes = encode_frame(&frame(Opcode::Data, 11, b"payload")).ok().unwrap();
    let mut p = Protocol::new();
    let mut got = None;
    for (i, b) in bytes.iter().enumerate() {
        let e = p.push_byte(*b);
        if i + 1 < bytes.len() {
            assert!(e.is_none());
        } else {
            got = e;
        }
    }
    match got {
        Some(Event::Frame(f)) => assert_eq!(f.data, b"payload".to_vec()),
        _ => panic!("expected a frame on the last byte"),
    }
}
