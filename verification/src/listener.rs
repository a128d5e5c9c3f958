//! Decoding and dispatch of inbound control messages.
//!
//! One received datagram is handled in one cycle: decode it as the
//! protocol, then act by its address. `/ping` earns a `/pong` reply with
//! the single integer argument `1`, addressed to the sender's host with
//! the port overridden by the configured reply port. `/rgb` with exactly
//! three integer arguments pushes the color they name — each truncated
//! to 8 bits — into the channel; a full channel is a distinct, fatal
//! failure. A bundle is noted and otherwise left alone; any other
//! message is ignored. Bytes that do not decode, and an `/rgb` message
//! with three arguments that are not all integers, are protocol errors,
//! fatal to the listener's loop.

use vstd::prelude::*;

use crate::channel::{CHANNEL_CAPACITY, ColorChannel, PushResult};
use crate::color::{channel_of_int, Color};
use crate::wire::{
    bytes_eq, decode_packet, encode_int_message, encode_int_message_bytes, spec_decode, ArgModel,
    MessageModel, OscArg, OscMessage, OscPacket, PacketModel, MAX_PACKET_LEN,
};

verus! {

/// A host and port that a reply can be sent to. The host is an IPv4
/// address as its 32-bit value.
#[derive(Clone, Copy, PartialEq, Eq, Structural, Debug)]
pub struct HostAddr {
    pub ip: u32,
    pub port: u16,
}

/// A reply datagram and where to send it.
#[derive(Debug)]
pub struct Reply {
    /// The encoded bytes to send.
    pub data: Vec<u8>,
    /// The destination: the probed host on the configured reply port.
    pub target: HostAddr,
}

/// What ends the listener's loop.
#[derive(Clone, Copy, PartialEq, Eq, Structural, Debug)]
pub enum ListenerError {
    /// The socket failed while receiving or sending.
    Transport,
    /// The datagram did not decode as the protocol, or an `/rgb`
    /// message carried three arguments that were not all integers.
    Protocol,
    /// The channel was full when a color was pushed.
    Backpressure,
}

/// One decoded command, as the dispatcher sees it.
#[derive(Clone, Copy, PartialEq, Eq, Structural, Debug)]
pub enum Command {
    /// A liveness probe to answer.
    Ping,
    /// A request to hold this color.
    SetColor(Color),
    /// A message the protocol carries but this device does not act on.
    Ignored,
}

/// The bytes of the address `/ping`.
pub open spec fn ping_addr() -> Seq<u8> {
    seq![47u8, 112u8, 105u8, 110u8, 103u8]
}

/// The bytes of the address `/rgb`.
pub open spec fn rgb_addr() -> Seq<u8> {
    seq![47u8, 114u8, 103u8, 98u8]
}

/// The bytes of the address `/pong`.
pub open spec fn pong_addr() -> Seq<u8> {
    seq![47u8, 112u8, 111u8, 110u8, 103u8]
}

/// The wire form of the reply to a probe: `/pong` with the one integer
/// argument `1`.
pub open spec fn pong_wire() -> Seq<u8> {
    encode_int_message(pong_addr(), seq![1i32])
}

/// Where the reply to a probe goes: the prober's host, with the port
/// overridden by the configured reply port.
pub open spec fn pong_target(source: HostAddr, pong_port: u16) -> HostAddr {
    HostAddr { ip: source.ip, port: pong_port }
}

/// The command a decoded message asks for, or nothing where the message
/// is malformed: `/rgb` with three arguments that are not all integers.
pub open spec fn spec_classify(m: MessageModel) -> Option<Command> {
    if m.addr == ping_addr() {
        Some(Command::Ping)
    } else if m.addr == rgb_addr() {
        if m.args.len() == 3 {
            match (m.args[0], m.args[1], m.args[2]) {
                (ArgModel::Int(r), ArgModel::Int(g), ArgModel::Int(b)) => Some(
                    Command::SetColor(
                        Color { r: channel_of_int(r), g: channel_of_int(g), b: channel_of_int(b) },
                    ),
                ),
                _ => None,
            }
        } else {
            Some(Command::Ignored)
        }
    } else {
        Some(Command::Ignored)
    }
}

/// The bytes of `/ping` as a vector.
fn ping_addr_vec() -> (r: Vec<u8>)
    ensures
        r@ == ping_addr(),
{
    let mut v: Vec<u8> = Vec::new();
    v.push(47);  // '/'
    v.push(112);  // 'p'
    v.push(105);  // 'i'
    v.push(110);  // 'n'
    v.push(103);  // 'g'
    proof {
        assert(v@ =~= ping_addr());
    }
    v
}

/// The bytes of `/rgb` as a vector.
fn rgb_addr_vec() -> (r: Vec<u8>)
    ensures
        r@ == rgb_addr(),
{
    let mut v: Vec<u8> = Vec::new();
    v.push(47);  // '/'
    v.push(114);  // 'r'
    v.push(103);  // 'g'
    v.push(98);  // 'b'
    proof {
        assert(v@ =~= rgb_addr());
    }
    v
}

/// The bytes of `/pong` as a vector.
fn pong_addr_vec() -> (r: Vec<u8>)
    ensures
        r@ == pong_addr(),
{
    let mut v: Vec<u8> = Vec::new();
    v.push(47);  // '/'
    v.push(112);  // 'p'
    v.push(111);  // 'o'
    v.push(110);  // 'n'
    v.push(103);  // 'g'
    proof {
        assert(v@ =~= pong_addr());
    }
    v
}

/// Encodes the reply to a probe: `/pong` with the one integer argument
/// `1`.
pub fn make_pong_reply() -> (r: Vec<u8>)
    ensures
        r@ == pong_wire(),
{
    let addr = pong_addr_vec();
    let mut args: Vec<i32> = Vec::new();
    args.push(1);
    proof {
        assert(args@ =~= seq![1i32]);
    }
    encode_int_message_bytes(&addr, &args)
}

/// Names the command a decoded message asks for; a malformed `/rgb`
/// message is a protocol error.
pub fn classify(m: &OscMessage) -> (r: Result<Command, ListenerError>)
    ensures
        match spec_classify(m@) {
            Some(c) => r == Ok::<Command, ListenerError>(c),
            None => r == Err::<Command, ListenerError>(ListenerError::Protocol),
        },
{
    let ping = ping_addr_vec();
    if bytes_eq(&m.addr, &ping) {
        return Ok(Command::Ping);
    }
    let rgb = rgb_addr_vec();
    if bytes_eq(&m.addr, &rgb) {
        if m.args.len() == 3 {
            proof {
                assert(m@.args[0] == m.args@[0]@);
                assert(m@.args[1] == m.args@[1]@);
                assert(m@.args[2] == m.args@[2]@);
            }
            match (&m.args[0], &m.args[1], &m.args[2]) {
                (OscArg::Int(r), OscArg::Int(g), OscArg::Int(b)) => {
                    Ok(Command::SetColor(Color::from_ints(*r, *g, *b)))
                },
                _ => Err(ListenerError::Protocol),
            }
        } else {
            Ok(Command::Ignored)
        }
    } else {
        Ok(Command::Ignored)
    }
}

/// Acts on one decoded packet: replies to a probe, pushes a requested
/// color, and leaves everything else alone.
pub fn dispatch(
    pkt: &OscPacket,
    source: HostAddr,
    pong_port: u16,
    chan: &mut ColorChannel,
) -> (r: Result<Option<Reply>, ListenerError>)
    ensures
        match pkt@ {
            PacketModel::Bundle => r matches Ok(None) && final(chan)@ == old(chan)@,
            PacketModel::Message(m) => match spec_classify(m) {
                None => r matches Err(e) && e == ListenerError::Protocol && final(chan)@ == old(
                    chan,
                )@,
                Some(Command::Ping) => r matches Ok(Some(rep)) && rep.data@ == pong_wire()
                    && rep.target == pong_target(source, pong_port) && final(chan)@ == old(chan)@,
                Some(Command::SetColor(c)) => if old(chan)@.len() < CHANNEL_CAPACITY {
                    r matches Ok(None) && final(chan)@ == old(chan)@.push(c)
                } else {
                    r matches Err(e) && e == ListenerError::Backpressure && final(chan)@ == old(
                        chan,
                    )@
                },
                Some(Command::Ignored) => r matches Ok(None) && final(chan)@ == old(chan)@,
            },
        },
{
    match pkt {
        OscPacket::Bundle => Ok(None),
        OscPacket::Message(m) => {
            match classify(m)? {
                Command::Ping => {
                    let data = make_pong_reply();
                    Ok(Some(Reply { data, target: HostAddr { ip: source.ip, port: pong_port } }))
                },
                Command::SetColor(c) => {
                    match chan.try_push(c) {
                        PushResult::Accepted => Ok(None),
                        PushResult::Full => Err(ListenerError::Backpressure),
                    }
                },
                Command::Ignored => Ok(None),
            }
        },
    }
}

/// Handles one received datagram: decodes it, then dispatches it. The
/// sender's address and the configured reply port name where a reply
/// would go; the channel receives any requested color.
pub fn handle_datagram(
    buf: &Vec<u8>,
    source: HostAddr,
    pong_port: u16,
    chan: &mut ColorChannel,
) -> (r: Result<Option<Reply>, ListenerError>)
    requires
        buf@.len() <= MAX_PACKET_LEN,
    ensures
        match spec_decode(buf@) {
            None => r matches Err(e) && e == ListenerError::Protocol && final(chan)@ == old(chan)@,
            Some(PacketModel::Bundle) => r matches Ok(None) && final(chan)@ == old(chan)@,
            Some(PacketModel::Message(m)) => match spec_classify(m) {
                None => r matches Err(e) && e == ListenerError::Protocol && final(chan)@ == old(
                    chan,
                )@,
                Some(Command::Ping) => r matches Ok(Some(rep)) && rep.data@ == pong_wire()
                    && rep.target == pong_target(source, pong_port) && final(chan)@ == old(chan)@,
                Some(Command::SetColor(c)) => if old(chan)@.len() < CHANNEL_CAPACITY {
                    r matches Ok(None) && final(chan)@ == old(chan)@.push(c)
                } else {
                    r matches Err(e) && e == ListenerError::Backpressure && final(chan)@ == old(
                        chan,
                    )@
                },
                Some(Command::Ignored) => r matches Ok(None) && final(chan)@ == old(chan)@,
            },
        },
{
    match decode_packet(buf) {
        None => Err(ListenerError::Protocol),
        Some(pkt) => dispatch(&pkt, source, pong_port, chan),
    }
}

/// An `/rgb` message carrying integers `r`, `g`, `b` in `[0, 255]`
/// asks for exactly the color `(r, g, b)`; pushed into a drained
/// channel, that color is what the renderer's next poll takes up, and
/// its frame replicates the held color across every pixel.
pub proof fn lemma_rgb_sets_next_color(
    m: MessageModel,
    pending: Seq<Color>,
    held: Color,
    r: i32,
    g: i32,
    b: i32,
)
    requires
        0 <= r <= 255,
        0 <= g <= 255,
        0 <= b <= 255,
        m.addr == rgb_addr(),
        m.args == seq![ArgModel::Int(r), ArgModel::Int(g), ArgModel::Int(b)],
        pending.len() == 0,
    ensures
        spec_classify(m) == Some(
            Command::SetColor(Color { r: r as u8, g: g as u8, b: b as u8 }),
        ),
        crate::render::next_held(
            pending.push(Color { r: r as u8, g: g as u8, b: b as u8 }),
            held,
        ) == (Color { r: r as u8, g: g as u8, b: b as u8 }),
{
    assert(m.addr != ping_addr());
    assert(m.args[0] == ArgModel::Int(r));
    assert(m.args[1] == ArgModel::Int(g));
    assert(m.args[2] == ArgModel::Int(b));
}

/// The encoded `/pong` reply decodes back as the `/pong` message with
/// the single integer argument `1`: what the device sends in answer to
/// a probe is a well-formed packet of the very protocol it listens to.
pub proof fn lemma_pong_reply_decodes()
    ensures
        spec_decode(pong_wire()) == Some(
            PacketModel::Message(
                MessageModel { addr: pong_addr(), args: seq![ArgModel::Int(1i32)] },
            ),
        ),
{
    assert(pong_addr()[0] == 47u8);
    assert forall|k: int| 0 <= k < pong_addr().len() implies pong_addr()[k] != 0u8 by {
        assert(pong_addr()[0] == 47u8 && pong_addr()[1] == 112u8 && pong_addr()[2] == 111u8
            && pong_addr()[3] == 110u8 && pong_addr()[4] == 103u8);
    }
    crate::wire::lemma_int_message_round_trip(pong_addr(), seq![1i32]);
    assert(seq![1i32].map_values(|x: i32| ArgModel::Int(x)) =~= seq![ArgModel::Int(1i32)]);
}

} // verus!
