use osc_led::listener::make_pong_reply;
use osc_led::wire::{decode_packet, OscArg, OscPacket};

fn reference_encode(packet: &rosc::OscPacket) -> Vec<u8> {
    rosc::encoder::encode(packet).expect("reference encoder failed")
}

fn reference_message(addr: &str, args: Vec<rosc::OscType>) -> Vec<u8> {
    reference_encode(&rosc::OscPacket::Message(rosc::OscMessage {
        addr: addr.to_string(),
        args,
    }))
}

#[test]
fn t_decode_rgb_message() {
    let bytes = reference_message(
        "/rgb",
        vec![
            rosc::OscType::Int(255),
            rosc::OscType::Int(0),
            rosc::OscType::Int(0),
        ],
    );
    let packet = decode_packet(&bytes).expect("a reference-encoded message must decode");
    match packet {
        OscPacket::Message(m) => {
            assert_eq!(m.addr, b"/rgb".to_vec());
            assert_eq!(m.args.len(), 3);
            assert!(matches!(m.args[0], OscArg::Int(255)));
            assert!(matches!(m.args[1], OscArg::Int(0)));
            assert!(matches!(m.args[2], OscArg::Int(0)));
        }
        OscPacket::Bundle => panic!("a message decoded as a bundle"),
    }
}

#[test]
fn t_decode_ping_without_args() {
    let bytes = reference_message("/ping", vec![]);
    let packet = decode_packet(&bytes).expect("a reference-encoded message must decode");
    match packet {
        OscPacket::Message(m) => {
            assert_eq!(m.addr, b"/ping".to_vec());
            assert_eq!(m.args.len(), 0);
        }
        OscPacket::Bundle => panic!("a message decoded as a bundle"),
    }
}

#[test]
fn t_decode_negative_int_argument() {
    let bytes = reference_message("/rgb", vec![rosc::OscType::Int(-1)]);
    let packet = decode_packet(&bytes).expect("a reference-encoded message must decode");
    match packet {
        OscPacket::Message(m) => {
            assert!(matches!(m.args[0], OscArg::Int(-1)));
        }
        OscPacket::Bundle => panic!("a message decoded as a bundle"),
    }
}

#[test]
fn t_decode_string_and_float_args() {
    let bytes = reference_message(
        "/mix",
        vec![
            rosc::OscType::String("hi".to_string()),
            rosc::OscType::Float(1.5),
        ],
    );
    let packet = decode_packet(&bytes).expect("a reference-encoded message must decode");
    match packet {
        OscPacket::Message(m) => {
            assert_eq!(m.addr, b"/mix".to_vec());
            assert_eq!(m.args.len(), 2);
            match &m.args[0] {
                OscArg::Str(s) => assert_eq!(s, &b"hi".to_vec()),
                _ => panic!("first argument should be a string"),
            }
            match &m.args[1] {
                OscArg::FloatBits(bits) => assert_eq!(*bits, 1.5f32.to_bits()),
                _ => panic!("second argument should carry float bits"),
            }
        }
        OscPacket::Bundle => panic!("a message decoded as a bundle"),
    }
}

#[test]
fn t_decode_blob_argument() {
    let bytes = reference_message("/blob", vec![rosc::OscType::Blob(vec![9, 8, 7])]);
    let packet = decode_packet(&bytes).expect("a reference-encoded message must decode");
    match packet {
        OscPacket::Message(m) => match &m.args[0] {
            OscArg::Blob(content) => assert_eq!(content, &vec![9, 8, 7]),
            _ => panic!("argument should be a blob"),
        },
        OscPacket::Bundle => panic!("a message decoded as a bundle"),
    }
}

#[test]
fn t_decode_bundle() {
    let bytes = reference_encode(&rosc::OscPacket::Bundle(rosc::OscBundle {
        timetag: rosc::OscTime {
            seconds: 0,
            fractional: 1,
        },
        content: vec![],
    }));
    let packet = decode_packet(&bytes).expect("a reference-encoded bundle must decode");
    assert!(matches!(packet, OscPacket::Bundle));
}

#[test]
fn t_garbage_does_not_decode() {
    assert!(decode_packet(&vec![]).is_none());
    assert!(decode_packet(&vec![1, 2, 3]).is_none());
    assert!(decode_packet(&vec![1, 2, 3, 4, 5, 6, 7, 8]).is_none());
    // no terminator anywhere
    assert!(decode_packet(&vec![47; 12]).is_none());
    // an address alone, without a type-tag string
    assert!(decode_packet(&vec![47, 120, 0, 0]).is_none());
}

#[test]
fn t_truncated_int_argument_does_not_decode() {
    // "/x\0\0,i\0\0" promises an integer but carries no bytes for it
    let bytes = vec![47, 120, 0, 0, 44, 105, 0, 0];
    assert!(decode_packet(&bytes).is_none());
}

#[test]
fn t_trailing_bytes_are_tolerated() {
    // bytes after the last argument are ignored, as the reference
    // decoder ignores them — even where they break the alignment
    let mut bytes = reference_message("/ping", vec![]);
    bytes.extend_from_slice(&[9, 8, 7]);
    let packet = decode_packet(&bytes).expect("trailing bytes must not fail the parse");
    match packet {
        OscPacket::Message(m) => {
            assert_eq!(m.addr, b"/ping".to_vec());
            assert_eq!(m.args.len(), 0);
        }
        OscPacket::Bundle => panic!("a message decoded as a bundle"),
    }
}

#[test]
fn t_decode_extended_scalar_tags() {
    let bytes = reference_message(
        "/mix2",
        vec![
            rosc::OscType::Long(-9),
            rosc::OscType::Double(2.5),
            rosc::OscType::Bool(true),
            rosc::OscType::Bool(false),
            rosc::OscType::Nil,
            rosc::OscType::Inf,
        ],
    );
    let packet = decode_packet(&bytes).expect("a reference-encoded message must decode");
    match packet {
        OscPacket::Message(m) => {
            assert_eq!(m.args.len(), 6);
            assert!(matches!(m.args[0], OscArg::Long(-9)));
            match &m.args[1] {
                OscArg::DoubleBits(bits) => assert_eq!(*bits, 2.5f64.to_bits()),
                _ => panic!("second argument should carry double bits"),
            }
            assert!(matches!(m.args[2], OscArg::Bool(true)));
            assert!(matches!(m.args[3], OscArg::Bool(false)));
            assert!(matches!(m.args[4], OscArg::Nil));
            assert!(matches!(m.args[5], OscArg::Inf));
        }
        OscPacket::Bundle => panic!("a message decoded as a bundle"),
    }
}

#[test]
fn t_decode_time_char_color_midi() {
    let bytes = reference_message(
        "/mix3",
        vec![
            rosc::OscType::Time(rosc::OscTime {
                seconds: 17,
                fractional: 4096,
            }),
            rosc::OscType::Char('A'),
            rosc::OscType::Color(rosc::OscColor {
                red: 1,
                green: 2,
                blue: 3,
                alpha: 4,
            }),
            rosc::OscType::Midi(rosc::OscMidiMessage {
                port: 5,
                status: 6,
                data1: 7,
                data2: 8,
            }),
        ],
    );
    let packet = decode_packet(&bytes).expect("a reference-encoded message must decode");
    match packet {
        OscPacket::Message(m) => {
            assert!(matches!(
                m.args[0],
                OscArg::Time {
                    seconds: 17,
                    fractional: 4096
                }
            ));
            assert!(matches!(m.args[1], OscArg::CharCode(65)));
            assert!(matches!(
                m.args[2],
                OscArg::Rgba {
                    red: 1,
                    green: 2,
                    blue: 3,
                    alpha: 4
                }
            ));
            assert!(matches!(
                m.args[3],
                OscArg::Midi {
                    port: 5,
                    status: 6,
                    data1: 7,
                    data2: 8
                }
            ));
        }
        OscPacket::Bundle => panic!("a message decoded as a bundle"),
    }
}

#[test]
fn t_decode_array_argument() {
    let bytes = reference_message(
        "/arr",
        vec![
            rosc::OscType::Array(rosc::OscArray {
                content: vec![rosc::OscType::Int(1), rosc::OscType::Bool(true)],
            }),
            rosc::OscType::Int(2),
        ],
    );
    let packet = decode_packet(&bytes).expect("a reference-encoded message must decode");
    match packet {
        OscPacket::Message(m) => {
            assert_eq!(m.args.len(), 2);
            match &m.args[0] {
                OscArg::Array(inner) => {
                    assert_eq!(inner.len(), 2);
                    assert!(matches!(inner[0], OscArg::Int(1)));
                    assert!(matches!(inner[1], OscArg::Bool(true)));
                }
                _ => panic!("first argument should be an array"),
            }
            assert!(matches!(m.args[1], OscArg::Int(2)));
        }
        OscPacket::Bundle => panic!("a message decoded as a bundle"),
    }
}

#[test]
fn t_tags_skip_first_character() {
    // the first character of the type-tag string is skipped unread, as
    // the reference decoder skips it; it need not be a comma
    let mut bytes = Vec::new();
    bytes.extend_from_slice(b"/ping\0\0\0");
    bytes.extend_from_slice(&[88, 105, 0, 0]); // "Xi"
    bytes.extend_from_slice(&[0, 0, 0, 7]);
    let packet = decode_packet(&bytes).expect("the tag string's first character is skipped");
    match packet {
        OscPacket::Message(m) => {
            assert_eq!(m.addr, b"/ping".to_vec());
            assert_eq!(m.args.len(), 1);
            assert!(matches!(m.args[0], OscArg::Int(7)));
        }
        OscPacket::Bundle => panic!("a message decoded as a bundle"),
    }
}

#[test]
fn t_unmatched_close_bracket_does_not_decode() {
    let mut bytes = Vec::new();
    bytes.extend_from_slice(b"/x\0\0");
    bytes.extend_from_slice(b",]\0\0");
    assert!(decode_packet(&bytes).is_none());
}

#[test]
fn t_unclosed_array_does_not_decode() {
    let mut bytes = Vec::new();
    bytes.extend_from_slice(b"/x\0\0");
    bytes.extend_from_slice(b",[\0\0");
    assert!(decode_packet(&bytes).is_none());
}

#[test]
fn t_invalid_char_code_does_not_decode() {
    // 0xD800 opens the surrogate range and names no character
    let mut bytes = Vec::new();
    bytes.extend_from_slice(b"/x\0\0");
    bytes.extend_from_slice(b",c\0\0");
    bytes.extend_from_slice(&[0x00, 0x00, 0xD8, 0x00]);
    assert!(decode_packet(&bytes).is_none());
}

#[test]
fn t_encode_int_message_matches_reference() {
    let bytes = osc_led::wire::encode_int_message_bytes(&b"/rgb".to_vec(), &vec![1, 2, -3]);
    let reference = reference_message(
        "/rgb",
        vec![
            rosc::OscType::Int(1),
            rosc::OscType::Int(2),
            rosc::OscType::Int(-3),
        ],
    );
    assert_eq!(bytes, reference);
}

#[test]
fn t_encode_pong_matches_reference() {
    let reference = reference_message("/pong", vec![rosc::OscType::Int(1)]);
    assert_eq!(make_pong_reply(), reference);
}

#[test]
fn t_pong_reply_decodes_back() {
    let reply = make_pong_reply();
    let packet = decode_packet(&reply).expect("the pong reply must decode");
    match packet {
        OscPacket::Message(m) => {
            assert_eq!(m.addr, b"/pong".to_vec());
            assert_eq!(m.args.len(), 1);
            assert!(matches!(m.args[0], OscArg::Int(1)));
        }
        OscPacket::Bundle => panic!("the pong reply decoded as a bundle"),
    }
}
