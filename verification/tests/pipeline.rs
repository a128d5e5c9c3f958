use osc_led::channel::{ColorChannel, PushResult, CHANNEL_CAPACITY};
use osc_led::color::Color;
use osc_led::listener::{handle_datagram, HostAddr, ListenerError};
use osc_led::render::Renderer;

fn rgb_datagram(r: i32, g: i32, b: i32) -> Vec<u8> {
    rosc::encoder::encode(&rosc::OscPacket::Message(rosc::OscMessage {
        addr: "/rgb".to_string(),
        args: vec![
            rosc::OscType::Int(r),
            rosc::OscType::Int(g),
            rosc::OscType::Int(b),
        ],
    }))
    .expect("reference encoder failed")
}

fn message_datagram(addr: &str, args: Vec<rosc::OscType>) -> Vec<u8> {
    rosc::encoder::encode(&rosc::OscPacket::Message(rosc::OscMessage {
        addr: addr.to_string(),
        args,
    }))
    .expect("reference encoder failed")
}

const SOURCE: HostAddr = HostAddr {
    ip: 0xC0A80042,
    port: 54321,
};
const PONG_PORT: u16 = 4646;

#[test]
fn t_channel_fifo_order() {
    let mut chan = ColorChannel::new();
    let red = Color { r: 255, g: 0, b: 0 };
    let green = Color { r: 0, g: 255, b: 0 };
    assert_eq!(chan.try_push(red), PushResult::Accepted);
    assert_eq!(chan.try_push(green), PushResult::Accepted);
    assert_eq!(chan.try_pop(), Some(red));
    assert_eq!(chan.try_pop(), Some(green));
    assert_eq!(chan.try_pop(), None);
}

#[test]
fn t_channel_full_push_fails_distinctly() {
    let mut chan = ColorChannel::new();
    let first = Color { r: 1, g: 2, b: 3 };
    assert_eq!(chan.try_push(first), PushResult::Accepted);
    for i in 1..CHANNEL_CAPACITY {
        let c = Color {
            r: i as u8,
            g: 0,
            b: 0,
        };
        assert_eq!(chan.try_push(c), PushResult::Accepted);
    }
    // the channel now holds exactly its capacity: the next push fails
    // without blocking and without dropping anything already held
    assert_eq!(chan.len(), CHANNEL_CAPACITY);
    let overflow = Color {
        r: 99,
        g: 99,
        b: 99,
    };
    assert_eq!(chan.try_push(overflow), PushResult::Full);
    assert_eq!(chan.len(), CHANNEL_CAPACITY);
    assert_eq!(chan.try_pop(), Some(first));
}

#[test]
fn t_renderer_starts_black() {
    let renderer = Renderer::new();
    let frame = renderer.frame(3);
    assert_eq!(frame, vec![Color { r: 0, g: 0, b: 0 }; 3]);
}

#[test]
fn t_renderer_keeps_color_on_empty_channel() {
    let mut chan = ColorChannel::new();
    let mut renderer = Renderer::new();
    let blue = Color { r: 0, g: 0, b: 255 };
    chan.try_push(blue);
    renderer.poll(&mut chan);
    assert_eq!(renderer.held, blue);
    // the channel is drained now: further polls must keep emitting the
    // previously held color rather than stalling or going dark
    renderer.poll(&mut chan);
    assert_eq!(renderer.held, blue);
    let frame = renderer.frame(4);
    assert_eq!(frame, vec![blue; 4]);
}

#[test]
fn t_renderer_takes_pending_colors_oldest_first() {
    let mut chan = ColorChannel::new();
    let mut renderer = Renderer::new();
    let a = Color { r: 10, g: 0, b: 0 };
    let b = Color { r: 20, g: 0, b: 0 };
    chan.try_push(a);
    chan.try_push(b);
    renderer.poll(&mut chan);
    assert_eq!(renderer.held, a);
    renderer.poll(&mut chan);
    assert_eq!(renderer.held, b);
}

#[test]
fn t_rgb_datagram_reaches_next_frame() {
    let mut chan = ColorChannel::new();
    let mut renderer = Renderer::new();
    let datagram = rgb_datagram(255, 0, 0);
    let outcome = handle_datagram(&datagram, SOURCE, PONG_PORT, &mut chan);
    assert!(matches!(outcome, Ok(None)));
    renderer.poll(&mut chan);
    let frame = renderer.frame(5);
    assert_eq!(frame, vec![Color { r: 255, g: 0, b: 0 }; 5]);
}

#[test]
fn t_rgb_arguments_truncate_to_low_byte() {
    let mut chan = ColorChannel::new();
    let datagram = rgb_datagram(300, -1, 256);
    let outcome = handle_datagram(&datagram, SOURCE, PONG_PORT, &mut chan);
    assert!(matches!(outcome, Ok(None)));
    assert_eq!(chan.try_pop(), Some(Color { r: 44, g: 255, b: 0 }));
}

#[test]
fn t_ping_earns_one_pong_to_reply_port() {
    let mut chan = ColorChannel::new();
    let datagram = message_datagram("/ping", vec![rosc::OscType::Int(7)]);
    let outcome = handle_datagram(&datagram, SOURCE, PONG_PORT, &mut chan);
    let reply = outcome
        .expect("a ping must be answered")
        .expect("a ping must earn a reply");
    assert_eq!(reply.target.ip, SOURCE.ip);
    assert_eq!(reply.target.port, PONG_PORT);
    // the reply is /pong with the single integer argument 1
    let (rest, packet) =
        rosc::decoder::decode_udp(&reply.data).expect("the reply must decode with the reference");
    assert!(rest.is_empty());
    match packet {
        rosc::OscPacket::Message(m) => {
            assert_eq!(m.addr, "/pong");
            assert_eq!(m.args, vec![rosc::OscType::Int(1)]);
        }
        rosc::OscPacket::Bundle(_) => panic!("the reply decoded as a bundle"),
    }
    assert_eq!(chan.len(), 0);
}

#[test]
fn t_ping_with_extended_args_still_pongs() {
    // a probe from a standard tool may carry any arguments — a boolean
    // toggle, a long — and must still be answered, not treated as an
    // error
    let mut chan = ColorChannel::new();
    let datagram = message_datagram(
        "/ping",
        vec![
            rosc::OscType::Bool(true),
            rosc::OscType::Long(4),
            rosc::OscType::Nil,
        ],
    );
    let outcome = handle_datagram(&datagram, SOURCE, PONG_PORT, &mut chan);
    let reply = outcome
        .expect("a ping must be answered")
        .expect("a ping must earn a reply");
    assert_eq!(reply.target.port, PONG_PORT);
    let (_, packet) =
        rosc::decoder::decode_udp(&reply.data).expect("the reply must decode with the reference");
    match packet {
        rosc::OscPacket::Message(m) => {
            assert_eq!(m.addr, "/pong");
            assert_eq!(m.args, vec![rosc::OscType::Int(1)]);
        }
        rosc::OscPacket::Bundle(_) => panic!("the reply decoded as a bundle"),
    }
}

#[test]
fn t_garbage_is_fatal_to_listener_only() {
    let mut chan = ColorChannel::new();
    let mut renderer = Renderer::new();
    let datagram = rgb_datagram(0, 255, 0);
    assert!(matches!(
        handle_datagram(&datagram, SOURCE, PONG_PORT, &mut chan),
        Ok(None)
    ));
    renderer.poll(&mut chan);
    // bytes that do not parse as the protocol end the listener's loop...
    let garbage = vec![0xde, 0xad, 0xbe, 0xef, 1, 2, 3, 4];
    let outcome = handle_datagram(&garbage, SOURCE, PONG_PORT, &mut chan);
    assert_eq!(outcome.unwrap_err(), ListenerError::Protocol);
    // ...while the renderer goes on emitting the color it holds
    assert_eq!(chan.len(), 0);
    renderer.poll(&mut chan);
    let frame = renderer.frame(2);
    assert_eq!(frame, vec![Color { r: 0, g: 255, b: 0 }; 2]);
}

#[test]
fn t_rgb_wrong_arity_is_ignored() {
    let mut chan = ColorChannel::new();
    let datagram = message_datagram("/rgb", vec![rosc::OscType::Int(1)]);
    assert!(matches!(
        handle_datagram(&datagram, SOURCE, PONG_PORT, &mut chan),
        Ok(None)
    ));
    assert_eq!(chan.len(), 0);
}

#[test]
fn t_rgb_non_integer_args_are_protocol_error() {
    let mut chan = ColorChannel::new();
    let datagram = message_datagram(
        "/rgb",
        vec![
            rosc::OscType::Float(1.0),
            rosc::OscType::Float(2.0),
            rosc::OscType::Float(3.0),
        ],
    );
    let outcome = handle_datagram(&datagram, SOURCE, PONG_PORT, &mut chan);
    assert_eq!(outcome.unwrap_err(), ListenerError::Protocol);
    assert_eq!(chan.len(), 0);
}

#[test]
fn t_other_address_is_ignored() {
    let mut chan = ColorChannel::new();
    let datagram = message_datagram("/brightness", vec![rosc::OscType::Int(5)]);
    assert!(matches!(
        handle_datagram(&datagram, SOURCE, PONG_PORT, &mut chan),
        Ok(None)
    ));
    assert_eq!(chan.len(), 0);
}

#[test]
fn t_bundle_is_noted_not_acted_on() {
    let mut chan = ColorChannel::new();
    let datagram = rosc::encoder::encode(&rosc::OscPacket::Bundle(rosc::OscBundle {
        timetag: rosc::OscTime {
            seconds: 1,
            fractional: 0,
        },
        content: vec![],
    }))
    .expect("reference encoder failed");
    assert!(matches!(
        handle_datagram(&datagram, SOURCE, PONG_PORT, &mut chan),
        Ok(None)
    ));
    assert_eq!(chan.len(), 0);
}

#[test]
fn t_full_channel_makes_rgb_fatal() {
    let mut chan = ColorChannel::new();
    for _ in 0..CHANNEL_CAPACITY {
        assert!(matches!(
            handle_datagram(&rgb_datagram(1, 2, 3), SOURCE, PONG_PORT, &mut chan),
            Ok(None)
        ));
    }
    let outcome = handle_datagram(&rgb_datagram(4, 5, 6), SOURCE, PONG_PORT, &mut chan);
    assert_eq!(outcome.unwrap_err(), ListenerError::Backpressure);
    assert_eq!(chan.len(), CHANNEL_CAPACITY);
}
