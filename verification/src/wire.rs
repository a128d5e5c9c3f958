//! The wire form of the control protocol.
//!
//! One UDP datagram carries one packet: either a message or a bundle. A
//! message is an address string, then a type-tag string, then the
//! arguments. Every string is terminated by a zero byte and occupies a
//! multiple of four bytes; the padding bytes after the terminator are
//! consumed without being inspected. The first character of the type-tag
//! string is skipped unread — by convention it is `,` — and each later
//! character names one argument: `i` a big-endian 32-bit integer, `f`
//! four bytes of a 32-bit float carried as raw bits, `s` a padded
//! string, `b` a blob of a big-endian 32-bit length followed by its
//! bytes padded to a four-byte boundary, `h` a 64-bit integer, `d`
//! eight bytes of a 64-bit float carried as raw bits, `t` a time tag of
//! two 32-bit values, `c` a character code that must name a valid
//! character, `r` a four-byte color, `m` a four-byte MIDI message,
//! `T`/`F`/`N`/`I` truth, falsity, nil and infinity with no payload,
//! and `[`/`]` opening and closing a nested array, which must be
//! balanced. Bytes after the last argument are tolerated and ignored. A
//! bundle starts with the eight bytes `#bundle\0` followed by at least
//! an eight-byte time tag; its contents are not interpreted here, only
//! recognized. A packet that strays from this grammar does not decode.

use vstd::prelude::*;

verus! {

broadcast use vstd::std_specs::vec::axiom_vec_index_decreases;

/// The largest datagram the decoder accepts; a UDP payload is smaller.
pub const MAX_PACKET_LEN: usize = 65536;

/// One decoded argument, at the specification level.
pub enum ArgModel {
    /// A 32-bit integer.
    Int(i32),
    /// The raw bits of a 32-bit float; the library never interprets them.
    FloatBits(u32),
    /// The bytes of a string argument, without terminator or padding.
    Str(Seq<u8>),
    /// The bytes of a blob argument, without padding.
    Blob(Seq<u8>),
    /// A 64-bit integer.
    Long(i64),
    /// The raw bits of a 64-bit float.
    DoubleBits(u64),
    /// A time tag: seconds and a fraction of a second.
    Time { seconds: u32, fractional: u32 },
    /// The code of a character; the grammar admits only valid ones.
    CharCode(u32),
    /// A four-channel color.
    Rgba { red: u8, green: u8, blue: u8, alpha: u8 },
    /// A four-byte MIDI message.
    Midi { port: u8, status: u8, data1: u8, data2: u8 },
    /// Truth or falsity, carried in the type tag alone.
    Bool(bool),
    /// Nil, carried in the type tag alone.
    Nil,
    /// Infinity, carried in the type tag alone.
    Inf,
    /// A nested array of arguments.
    Array(Seq<ArgModel>),
}

/// One decoded message, at the specification level.
pub struct MessageModel {
    /// The address the message is routed by, e.g. `/ping`.
    pub addr: Seq<u8>,
    /// The arguments, in wire order.
    pub args: Seq<ArgModel>,
}

/// One decoded packet, at the specification level.
pub enum PacketModel {
    Message(MessageModel),
    Bundle,
}

/// Rounds a non-negative count up to the next multiple of four.
pub open spec fn pad4(n: int) -> int {
    ((n + 3) / 4) * 4
}

/// The position of the first zero byte at or after `pos`, if any.
pub open spec fn find_zero(b: Seq<u8>, pos: int) -> Option<int>
    decreases b.len() - pos,
{
    if pos < 0 || pos >= b.len() {
        None
    } else if b[pos] == 0 {
        Some(pos)
    } else {
        find_zero(b, pos + 1)
    }
}

/// Parses a zero-terminated string starting at `pos`: the content runs
/// to the first zero byte, and the span consumed is the content and its
/// terminator rounded up to a multiple of four; the padding bytes are
/// not inspected. Yields the content and the position after the
/// padding.
pub open spec fn spec_parse_str(b: Seq<u8>, pos: int) -> Option<(Seq<u8>, int)> {
    match find_zero(b, pos) {
        None => None,
        Some(z) => {
            let end = pos + pad4(z - pos + 1);
            if end <= b.len() {
                Some((b.subrange(pos, z), end))
            } else {
                None
            }
        },
    }
}

/// The big-endian 32-bit value of the four bytes at `pos`.
pub open spec fn be_u32_at(b: Seq<u8>, pos: int) -> u32 {
    ((b[pos] as u32) << 24) | ((b[pos + 1] as u32) << 16) | ((b[pos + 2] as u32) << 8) | (b[pos
        + 3] as u32)
}

/// The big-endian 64-bit value of the eight bytes at `pos`.
pub open spec fn be_u64_at(b: Seq<u8>, pos: int) -> u64 {
    ((be_u32_at(b, pos) as u64) << 32) | (be_u32_at(b, pos + 4) as u64)
}

/// Whether a 32-bit code names a character: below the surrogate range,
/// or between its end and the last code point.
pub open spec fn valid_char_code(c: u32) -> bool {
    c < 0xD800 || (0xE000 <= c && c <= 0x10FFFF)
}

/// Parses one payload-bearing argument of the given type tag starting
/// at `pos`. The bracket tags carry no payload and are handled by the
/// tag loop; any tag not named here fails the parse.
pub open spec fn spec_parse_arg(b: Seq<u8>, tag: u8, pos: int) -> Option<(ArgModel, int)> {
    if tag == 105 {  // 'i'
        if pos + 4 <= b.len() {
            Some((ArgModel::Int(be_u32_at(b, pos) as i32), pos + 4))
        } else {
            None
        }
    } else if tag == 102 {  // 'f'
        if pos + 4 <= b.len() {
            Some((ArgModel::FloatBits(be_u32_at(b, pos)), pos + 4))
        } else {
            None
        }
    } else if tag == 115 {  // 's'
        match spec_parse_str(b, pos) {
            None => None,
            Some((s, end)) => Some((ArgModel::Str(s), end)),
        }
    } else if tag == 98 {  // 'b'
        if pos + 4 <= b.len() {
            let l = be_u32_at(b, pos) as int;
            let end = pos + 4 + pad4(l);
            if end <= b.len() {
                Some((ArgModel::Blob(b.subrange(pos + 4, pos + 4 + l)), end))
            } else {
                None
            }
        } else {
            None
        }
    } else if tag == 104 {  // 'h'
        if pos + 8 <= b.len() {
            Some((ArgModel::Long(be_u64_at(b, pos) as i64), pos + 8))
        } else {
            None
        }
    } else if tag == 100 {  // 'd'
        if pos + 8 <= b.len() {
            Some((ArgModel::DoubleBits(be_u64_at(b, pos)), pos + 8))
        } else {
            None
        }
    } else if tag == 116 {  // 't'
        if pos + 8 <= b.len() {
            Some(
                (
                    ArgModel::Time {
                        seconds: be_u32_at(b, pos),
                        fractional: be_u32_at(b, pos + 4),
                    },
                    pos + 8,
                ),
            )
        } else {
            None
        }
    } else if tag == 99 {  // 'c'
        if pos + 4 <= b.len() && valid_char_code(be_u32_at(b, pos)) {
            Some((ArgModel::CharCode(be_u32_at(b, pos)), pos + 4))
        } else {
            None
        }
    } else if tag == 114 {  // 'r'
        if pos + 4 <= b.len() {
            Some(
                (
                    ArgModel::Rgba {
                        red: b[pos],
                        green: b[pos + 1],
                        blue: b[pos + 2],
                        alpha: b[pos + 3],
                    },
                    pos + 4,
                ),
            )
        } else {
            None
        }
    } else if tag == 109 {  // 'm'
        if pos + 4 <= b.len() {
            Some(
                (
                    ArgModel::Midi {
                        port: b[pos],
                        status: b[pos + 1],
                        data1: b[pos + 2],
                        data2: b[pos + 3],
                    },
                    pos + 4,
                ),
            )
        } else {
            None
        }
    } else if tag == 84 {  // 'T'
        Some((ArgModel::Bool(true), pos))
    } else if tag == 70 {  // 'F'
        Some((ArgModel::Bool(false), pos))
    } else if tag == 78 {  // 'N'
        Some((ArgModel::Nil, pos))
    } else if tag == 73 {  // 'I'
        Some((ArgModel::Inf, pos))
    } else {
        None
    }
}

/// Walks the type tags from index `ti` on, collecting arguments into
/// the current frame `cur`; `[` stashes the frame on `stack` and opens
/// a new one, `]` closes the open frame into an array of the stashed
/// one. At the end of the tags every opened array must have been
/// closed. Yields the arguments and the position after the last
/// payload.
pub open spec fn spec_parse_tag_loop(
    b: Seq<u8>,
    tags: Seq<u8>,
    ti: int,
    pos: int,
    stack: Seq<Seq<ArgModel>>,
    cur: Seq<ArgModel>,
) -> Option<(Seq<ArgModel>, int)>
    decreases tags.len() - ti,
{
    if ti < 0 || ti >= tags.len() {
        if stack.len() == 0 {
            Some((cur, pos))
        } else {
            None
        }
    } else if tags[ti] == 91 {  // '['
        spec_parse_tag_loop(b, tags, ti + 1, pos, stack.push(cur), Seq::empty())
    } else if tags[ti] == 93 {  // ']'
        if stack.len() == 0 {
            None
        } else {
            spec_parse_tag_loop(
                b,
                tags,
                ti + 1,
                pos,
                stack.drop_last(),
                stack.last().push(ArgModel::Array(cur)),
            )
        }
    } else {
        match spec_parse_arg(b, tags[ti], pos) {
            None => None,
            Some((a, p2)) => spec_parse_tag_loop(b, tags, ti + 1, p2, stack, cur.push(a)),
        }
    }
}

/// Parses the arguments named by a type-tag string, whose first
/// character is skipped unread.
pub open spec fn spec_parse_args(b: Seq<u8>, tags: Seq<u8>, pos: int) -> Option<
    (Seq<ArgModel>, int),
> {
    spec_parse_tag_loop(b, tags, 1, pos, Seq::empty(), Seq::empty())
}

/// Decodes a message: an address starting with `/`, a type-tag string,
/// then the arguments; bytes after the last argument are ignored.
pub open spec fn spec_decode_message(b: Seq<u8>) -> Option<MessageModel> {
    match spec_parse_str(b, 0) {
        None => None,
        Some((addr, p1)) => {
            if addr.len() == 0 || addr[0] != 47 {  // '/'
                None
            } else {
                match spec_parse_str(b, p1) {
                    None => None,
                    Some((tags, p2)) => match spec_parse_args(b, tags, p2) {
                        None => None,
                        Some((args, _p3)) => Some(MessageModel { addr, args }),
                    },
                }
            }
        },
    }
}

/// The eight bytes `#bundle\0` that open every bundle.
pub open spec fn bundle_tag() -> Seq<u8> {
    seq![35u8, 98u8, 117u8, 110u8, 100u8, 108u8, 101u8, 0u8]
}

/// A bundle: the opening tag and at least an eight-byte time tag.
pub open spec fn is_bundle(b: Seq<u8>) -> bool {
    b.len() >= 16 && b.subrange(0, 8) == bundle_tag()
}

/// Decodes one datagram: a bundle where the bundle tag opens it, else a
/// message.
pub open spec fn spec_decode(b: Seq<u8>) -> Option<PacketModel> {
    if is_bundle(b) {
        Some(PacketModel::Bundle)
    } else {
        match spec_decode_message(b) {
            None => None,
            Some(m) => Some(PacketModel::Message(m)),
        }
    }
}

/// One decoded argument.
pub enum OscArg {
    /// A 32-bit integer.
    Int(i32),
    /// The raw bits of a 32-bit float.
    FloatBits(u32),
    /// The bytes of a string argument.
    Str(Vec<u8>),
    /// The bytes of a blob argument.
    Blob(Vec<u8>),
    /// A 64-bit integer.
    Long(i64),
    /// The raw bits of a 64-bit float.
    DoubleBits(u64),
    /// A time tag: seconds and a fraction of a second.
    Time { seconds: u32, fractional: u32 },
    /// The code of a character.
    CharCode(u32),
    /// A four-channel color.
    Rgba { red: u8, green: u8, blue: u8, alpha: u8 },
    /// A four-byte MIDI message.
    Midi { port: u8, status: u8, data1: u8, data2: u8 },
    /// Truth or falsity.
    Bool(bool),
    /// Nil.
    Nil,
    /// Infinity.
    Inf,
    /// A nested array of arguments.
    Array(Vec<OscArg>),
}

/// The specification-level value of one argument.
pub open spec fn arg_model(a: OscArg) -> ArgModel
    decreases a,
{
    match a {
        OscArg::Int(x) => ArgModel::Int(x),
        OscArg::FloatBits(x) => ArgModel::FloatBits(x),
        OscArg::Str(s) => ArgModel::Str(s@),
        OscArg::Blob(s) => ArgModel::Blob(s@),
        OscArg::Long(x) => ArgModel::Long(x),
        OscArg::DoubleBits(x) => ArgModel::DoubleBits(x),
        OscArg::Time { seconds, fractional } => ArgModel::Time { seconds, fractional },
        OscArg::CharCode(c) => ArgModel::CharCode(c),
        OscArg::Rgba { red, green, blue, alpha } => ArgModel::Rgba { red, green, blue, alpha },
        OscArg::Midi { port, status, data1, data2 } => ArgModel::Midi {
            port,
            status,
            data1,
            data2,
        },
        OscArg::Bool(v) => ArgModel::Bool(v),
        OscArg::Nil => ArgModel::Nil,
        OscArg::Inf => ArgModel::Inf,
        OscArg::Array(v) => ArgModel::Array(
            Seq::new(
                v.len() as nat,
                |i: int|
                    if 0 <= i < v.len() {
                        arg_model(v[i])
                    } else {
                        arbitrary()
                    },
            ),
        ),
    }
}

impl View for OscArg {
    type V = ArgModel;

    open spec fn view(&self) -> ArgModel {
        arg_model(*self)
    }
}

/// The arguments of a message, at the specification level.
pub open spec fn args_model(s: Seq<OscArg>) -> Seq<ArgModel> {
    s.map_values(|a: OscArg| arg_model(a))
}

/// One decoded message.
pub struct OscMessage {
    /// The address the message is routed by.
    pub addr: Vec<u8>,
    /// The arguments, in wire order.
    pub args: Vec<OscArg>,
}

impl View for OscMessage {
    type V = MessageModel;

    open spec fn view(&self) -> MessageModel {
        MessageModel { addr: self.addr@, args: args_model(self.args@) }
    }
}

/// One decoded packet.
pub enum OscPacket {
    Message(OscMessage),
    Bundle,
}

impl View for OscPacket {
    type V = PacketModel;

    open spec fn view(&self) -> PacketModel {
        match self {
            OscPacket::Message(m) => PacketModel::Message(m@),
            OscPacket::Bundle => PacketModel::Bundle,
        }
    }
}

/// `find_zero` does not move past positions holding non-zero bytes.
proof fn lemma_find_zero_skip(b: Seq<u8>, pos: int, i: int)
    requires
        0 <= pos <= i <= b.len(),
        forall|k: int| pos <= k < i ==> b[k] != 0,
    ensures
        find_zero(b, pos) == find_zero(b, i),
    decreases i - pos,
{
    if pos < i {
        lemma_find_zero_skip(b, pos + 1, i);
    }
}

/// The position of the first zero byte at or after `pos`, if any.
fn find_zero_from(buf: &Vec<u8>, pos: usize) -> (r: Option<usize>)
    requires
        pos <= buf@.len(),
    ensures
        match r {
            Some(z) => find_zero(buf@, pos as int) == Some(z as int) && pos <= z < buf@.len(),
            None => find_zero(buf@, pos as int) is None,
        },
{
    let mut i: usize = pos;
    while i < buf.len()
        invariant
            pos <= i <= buf@.len(),
            forall|k: int| pos <= k < i ==> buf@[k] != 0,
        decreases buf@.len() - i,
    {
        if buf[i] == 0 {
            proof {
                lemma_find_zero_skip(buf@, pos as int, i as int);
            }
            return Some(i);
        }
        i = i + 1;
    }
    proof {
        lemma_find_zero_skip(buf@, pos as int, i as int);
    }
    None
}

/// Rounds a count up to the next multiple of four.
fn pad4_len(n: usize) -> (r: usize)
    requires
        n <= MAX_PACKET_LEN + 8,
    ensures
        r as int == pad4(n as int),
        n <= r < n + 4,
{
    ((n + 3) / 4) * 4
}

/// Parses a zero-terminated, zero-padded string starting at `pos`.
fn parse_str(buf: &Vec<u8>, pos: usize) -> (r: Option<(Vec<u8>, usize)>)
    requires
        pos <= buf@.len(),
        buf@.len() <= MAX_PACKET_LEN,
    ensures
        match r {
            Some(p) => spec_parse_str(buf@, pos as int) == Some((p.0@, p.1 as int)) && pos < p.1
                <= buf@.len(),
            None => spec_parse_str(buf@, pos as int) is None,
        },
{
    let z = match find_zero_from(buf, pos) {
        None => {
            return None;
        },
        Some(z) => z,
    };
    let end = pos + pad4_len(z - pos + 1);
    if end > buf.len() {
        return None;
    }
    let mut s: Vec<u8> = Vec::new();
    let mut i: usize = pos;
    while i < z
        invariant
            pos <= i <= z < buf@.len(),
            s@ == buf@.subrange(pos as int, i as int),
        decreases z - i,
    {
        s.push(buf[i]);
        proof {
            assert(s@ =~= buf@.subrange(pos as int, i as int + 1));
        }
        i = i + 1;
    }
    proof {
        assert(s@ =~= buf@.subrange(pos as int, z as int));
    }
    Some((s, end))
}

/// Whether two byte vectors hold the same bytes.
pub fn bytes_eq(a: &Vec<u8>, b: &Vec<u8>) -> (r: bool)
    ensures
        r <==> a@ == b@,
{
    if a.len() != b.len() {
        return false;
    }
    let mut i: usize = 0;
    while i < a.len()
        invariant
            0 <= i <= a@.len(),
            a@.len() == b@.len(),
            forall|k: int| 0 <= k < i ==> a@[k] == b@[k],
        decreases a@.len() - i,
    {
        if a[i] != b[i] {
            return false;
        }
        i = i + 1;
    }
    proof {
        assert(a@ =~= b@);
    }
    true
}

/// The big-endian 32-bit value of the four bytes at `pos`.
fn read_be_u32(buf: &Vec<u8>, pos: usize) -> (r: u32)
    requires
        pos + 4 <= buf@.len(),
        buf@.len() <= MAX_PACKET_LEN,
    ensures
        r == be_u32_at(buf@, pos as int),
{
    ((buf[pos] as u32) << 24u32) | ((buf[pos + 1] as u32) << 16u32) | ((buf[pos + 2] as u32)
        << 8u32) | (buf[pos + 3] as u32)
}

/// The big-endian 64-bit value of the eight bytes at `pos`.
fn read_be_u64(buf: &Vec<u8>, pos: usize) -> (r: u64)
    requires
        pos + 8 <= buf@.len(),
        buf@.len() <= MAX_PACKET_LEN,
    ensures
        r == be_u64_at(buf@, pos as int),
{
    ((read_be_u32(buf, pos) as u64) << 32u64) | (read_be_u32(buf, pos + 4) as u64)
}

/// Copies the bytes of `buf` in `[from, to)` into a fresh vector.
fn copy_range(buf: &Vec<u8>, from: usize, to: usize) -> (r: Vec<u8>)
    requires
        from <= to <= buf@.len(),
    ensures
        r@ == buf@.subrange(from as int, to as int),
{
    let mut s: Vec<u8> = Vec::new();
    let mut i: usize = from;
    while i < to
        invariant
            from <= i <= to <= buf@.len(),
            s@ == buf@.subrange(from as int, i as int),
        decreases to - i,
    {
        s.push(buf[i]);
        proof {
            assert(s@ =~= buf@.subrange(from as int, i as int + 1));
        }
        i = i + 1;
    }
    proof {
        assert(s@ =~= buf@.subrange(from as int, to as int));
    }
    s
}

/// Parses one payload-bearing argument of the given type tag.
fn parse_arg(buf: &Vec<u8>, tag: u8, pos: usize) -> (r: Option<(OscArg, usize)>)
    requires
        pos <= buf@.len(),
        buf@.len() <= MAX_PACKET_LEN,
    ensures
        match r {
            Some(p) => spec_parse_arg(buf@, tag, pos as int) == Some((p.0@, p.1 as int)) && pos
                <= p.1 <= buf@.len(),
            None => spec_parse_arg(buf@, tag, pos as int) is None,
        },
{
    if tag == 105 {  // 'i'
        if pos + 4 <= buf.len() {
            let v = read_be_u32(buf, pos);
            Some((OscArg::Int(#[verifier::truncate] (v as i32)), pos + 4))
        } else {
            None
        }
    } else if tag == 102 {  // 'f'
        if pos + 4 <= buf.len() {
            Some((OscArg::FloatBits(read_be_u32(buf, pos)), pos + 4))
        } else {
            None
        }
    } else if tag == 115 {  // 's'
        match parse_str(buf, pos) {
            None => None,
            Some((s, end)) => Some((OscArg::Str(s), end)),
        }
    } else if tag == 98 {  // 'b'
        if pos + 4 <= buf.len() {
            let l = read_be_u32(buf, pos);
            if l as usize > buf.len() {
                proof {
                    assert(pad4(l as int) >= l as int);
                }
                return None;
            }
            let padded = pad4_len(l as usize);
            let end = pos + 4 + padded;
            if end <= buf.len() {
                let content = copy_range(buf, pos + 4, pos + 4 + l as usize);
                Some((OscArg::Blob(content), end))
            } else {
                None
            }
        } else {
            None
        }
    } else if tag == 104 {  // 'h'
        if pos + 8 <= buf.len() {
            let v = read_be_u64(buf, pos);
            Some((OscArg::Long(#[verifier::truncate] (v as i64)), pos + 8))
        } else {
            None
        }
    } else if tag == 100 {  // 'd'
        if pos + 8 <= buf.len() {
            Some((OscArg::DoubleBits(read_be_u64(buf, pos)), pos + 8))
        } else {
            None
        }
    } else if tag == 116 {  // 't'
        if pos + 8 <= buf.len() {
            let seconds = read_be_u32(buf, pos);
            let fractional = read_be_u32(buf, pos + 4);
            Some((OscArg::Time { seconds, fractional }, pos + 8))
        } else {
            None
        }
    } else if tag == 99 {  // 'c'
        if pos + 4 <= buf.len() {
            let c = read_be_u32(buf, pos);
            if c < 0xD800 || (0xE000 <= c && c <= 0x10FFFF) {
                Some((OscArg::CharCode(c), pos + 4))
            } else {
                None
            }
        } else {
            None
        }
    } else if tag == 114 {  // 'r'
        if pos + 4 <= buf.len() {
            Some(
                (
                    OscArg::Rgba {
                        red: buf[pos],
                        green: buf[pos + 1],
                        blue: buf[pos + 2],
                        alpha: buf[pos + 3],
                    },
                    pos + 4,
                ),
            )
        } else {
            None
        }
    } else if tag == 109 {  // 'm'
        if pos + 4 <= buf.len() {
            Some(
                (
                    OscArg::Midi {
                        port: buf[pos],
                        status: buf[pos + 1],
                        data1: buf[pos + 2],
                        data2: buf[pos + 3],
                    },
                    pos + 4,
                ),
            )
        } else {
            None
        }
    } else if tag == 84 {  // 'T'
        Some((OscArg::Bool(true), pos))
    } else if tag == 70 {  // 'F'
        Some((OscArg::Bool(false), pos))
    } else if tag == 78 {  // 'N'
        Some((OscArg::Nil, pos))
    } else if tag == 73 {  // 'I'
        Some((OscArg::Inf, pos))
    } else {
        None
    }
}

/// The specification-level value of a stack of open frames.
spec fn stack_model(s: Seq<Vec<OscArg>>) -> Seq<Seq<ArgModel>> {
    s.map_values(|v: Vec<OscArg>| args_model(v@))
}

/// Parses all arguments named by the type tags after the skipped first
/// character.
fn parse_args(buf: &Vec<u8>, tags: &Vec<u8>, start: usize) -> (r: Option<(Vec<OscArg>, usize)>)
    requires
        start <= buf@.len(),
        buf@.len() <= MAX_PACKET_LEN,
    ensures
        match r {
            Some(p) => spec_parse_args(buf@, tags@, start as int) == Some(
                (args_model(p.0@), p.1 as int),
            ) && p.1 <= buf@.len(),
            None => spec_parse_args(buf@, tags@, start as int) is None,
        },
{
    let mut cur: Vec<OscArg> = Vec::new();
    let mut stack: Vec<Vec<OscArg>> = Vec::new();
    let mut pos: usize = start;
    let mut ti: usize = 1;
    proof {
        assert(args_model(cur@) =~= Seq::<ArgModel>::empty());
        assert(stack_model(stack@) =~= Seq::<Seq<ArgModel>>::empty());
    }
    while ti < tags.len()
        invariant
            1 <= ti,
            pos <= buf@.len(),
            buf@.len() <= MAX_PACKET_LEN,
            spec_parse_args(buf@, tags@, start as int) == spec_parse_tag_loop(
                buf@,
                tags@,
                ti as int,
                pos as int,
                stack_model(stack@),
                args_model(cur@),
            ),
        decreases tags@.len() - ti,
    {
        let tag = tags[ti];
        if tag == 91 {  // '['
            proof {
                assert(stack_model(stack@.push(cur)) =~= stack_model(stack@).push(
                    args_model(cur@),
                ));
                assert(args_model(Seq::<OscArg>::empty()) =~= Seq::<ArgModel>::empty());
            }
            stack.push(cur);
            cur = Vec::new();
        } else if tag == 93 {  // ']'
            let ghost old_stack = stack@;
            match stack.pop() {
                None => {
                    return None;
                },
                Some(mut outer) => {
                    proof {
                        assert(stack_model(old_stack).last() == args_model(outer@));
                        assert(stack_model(old_stack.drop_last()) =~= stack_model(
                            old_stack,
                        ).drop_last());
                        assert(arg_model(OscArg::Array(cur)) == ArgModel::Array(
                            args_model(cur@),
                        )) by {
                            let m = arg_model(OscArg::Array(cur));
                            assert(m is Array);
                            let s = m->Array_0;
                            assert(s.len() == cur@.len());
                            assert(forall|i: int|
                                0 <= i < cur@.len() ==> #[trigger] s[i] == arg_model(cur@[i]));
                            assert(s =~= args_model(cur@));
                        }
                        assert(args_model(outer@.push(OscArg::Array(cur))) =~= args_model(
                            outer@,
                        ).push(ArgModel::Array(args_model(cur@))));
                    }
                    outer.push(OscArg::Array(cur));
                    cur = outer;
                },
            }
        } else {
            match parse_arg(buf, tag, pos) {
                None => {
                    return None;
                },
                Some((a, p2)) => {
                    proof {
                        assert(args_model(cur@.push(a)) =~= args_model(cur@).push(arg_model(a)));
                    }
                    cur.push(a);
                    pos = p2;
                },
            }
        }
        ti = ti + 1;
    }
    if stack.len() > 0 {
        return None;
    }
    Some((cur, pos))
}

/// Decodes one message from the datagram; bytes after the last
/// argument are ignored.
fn decode_message(buf: &Vec<u8>) -> (r: Option<OscMessage>)
    requires
        buf@.len() <= MAX_PACKET_LEN,
    ensures
        match r {
            Some(m) => spec_decode_message(buf@) == Some(m@),
            None => spec_decode_message(buf@) is None,
        },
{
    let (addr, p1) = match parse_str(buf, 0) {
        None => {
            return None;
        },
        Some(p) => p,
    };
    if addr.len() == 0 || addr[0] != 47 {  // '/'
        return None;
    }
    let (tags, p2) = match parse_str(buf, p1) {
        None => {
            return None;
        },
        Some(p) => p,
    };
    let (args, _p3) = match parse_args(buf, &tags, p2) {
        None => {
            return None;
        },
        Some(p) => p,
    };
    Some(OscMessage { addr, args })
}

/// Decodes one datagram into a packet, or nothing where the bytes stray
/// from the protocol's grammar.
pub fn decode_packet(buf: &Vec<u8>) -> (r: Option<OscPacket>)
    requires
        buf@.len() <= MAX_PACKET_LEN,
    ensures
        match r {
            Some(p) => spec_decode(buf@) == Some(p@),
            None => spec_decode(buf@) is None,
        },
{
    if buf.len() >= 16 {
        let tag_matches = buf[0] == 35 && buf[1] == 98 && buf[2] == 117 && buf[3] == 110 && buf[4]
            == 100 && buf[5] == 108 && buf[6] == 101 && buf[7] == 0;
        proof {
            let s = buf@.subrange(0, 8);
            assert(s[0] == buf@[0] && s[1] == buf@[1] && s[2] == buf@[2] && s[3] == buf@[3] && s[4]
                == buf@[4] && s[5] == buf@[5] && s[6] == buf@[6] && s[7] == buf@[7]);
            if tag_matches {
                assert(s =~= bundle_tag());
            }
        }
        if tag_matches {
            return Some(OscPacket::Bundle);
        }
    }
    proof {
        assert(!is_bundle(buf@));
    }
    match decode_message(buf) {
        None => None,
        Some(m) => Some(OscPacket::Message(m)),
    }
}

/// A run of `n` zero bytes.
pub open spec fn zeros_seq(n: int) -> Seq<u8> {
    Seq::new(n as nat, |i: int| 0u8)
}

/// A string as laid out on the wire: the content, its zero terminator,
/// and zero padding to a four-byte boundary.
pub open spec fn padded_str(s: Seq<u8>) -> Seq<u8> {
    s.add(zeros_seq(pad4(s.len() as int + 1) - s.len()))
}

/// The four big-endian bytes of a 32-bit value.
pub open spec fn be_bytes_u32(x: u32) -> Seq<u8> {
    seq![(x >> 24) as u8, (x >> 16) as u8, (x >> 8) as u8, x as u8]
}

/// The wire bytes of a run of integer arguments.
pub open spec fn int_payload(args: Seq<i32>) -> Seq<u8>
    decreases args.len(),
{
    if args.len() == 0 {
        Seq::empty()
    } else {
        be_bytes_u32(args[0] as u32).add(int_payload(args.drop_first()))
    }
}

/// The type-tag string of a message whose arguments are `n` integers.
pub open spec fn int_tags(n: int) -> Seq<u8> {
    seq![44u8].add(Seq::new(n as nat, |i: int| 105u8))
}

/// The wire form of a message whose arguments are all integers.
pub open spec fn encode_int_message(addr: Seq<u8>, args: Seq<i32>) -> Seq<u8> {
    padded_str(addr).add(padded_str(int_tags(args.len() as int))).add(int_payload(args))
}

/// Any message of integer arguments that the encoder can produce
/// decodes back to itself: under a valid address — a leading `/` and
/// no zero byte — encoding and then decoding returns the very address
/// and arguments, for every run of integers.
pub proof fn lemma_int_message_round_trip(addr: Seq<u8>, args: Seq<i32>)
    requires
        addr.len() >= 1,
        addr[0] == 47,
        forall|k: int| 0 <= k < addr.len() ==> addr[k] != 0,
    ensures
        spec_decode(encode_int_message(addr, args)) == Some(
            PacketModel::Message(
                MessageModel { addr, args: args.map_values(|x: i32| ArgModel::Int(x)) },
            ),
        ),
{
    let n = args.len() as int;
    let a_len = addr.len() as int;
    let pa = pad4(a_len + 1);
    let tags = int_tags(n);
    let tn = pad4(n + 2);
    let aa = padded_str(addr);
    let tt = padded_str(tags);
    let pp = int_payload(args);
    let w = encode_int_message(addr, args);
    lemma_int_payload_len(args);
    assert(tags.len() == n + 1);
    assert(aa.len() == pa);
    assert(tt.len() == pa + tn - pa);
    assert(tt.len() == tn);
    assert(w.len() == pa + tn + 4 * n);
    assert(pa >= a_len + 1 && pa <= a_len + 4);
    assert(tn >= n + 2 && tn <= n + 5);

    assert forall|k: int| 0 <= k < pa implies w[k] == aa[k] by {
        assert(w[k] == aa.add(tt)[k]);
    }
    assert forall|k: int| 0 <= k < tn implies w[pa + k] == tt[k] by {
        assert(w[pa + k] == aa.add(tt)[pa + k]);
    }
    assert forall|k: int| 0 <= k < 4 * n implies w[pa + tn + k] == pp[k] by {
        assert(w[pa + tn + k] == pp[pa + tn + k - aa.add(tt).len()]);
    }

    // the address string
    assert forall|k: int| 0 <= k < a_len implies w[k] != 0u8 by {
        assert(aa[k] == addr[k]);
    }
    assert(w[a_len] == aa[a_len]);
    assert(aa[a_len] == zeros_seq(pa - a_len)[0]);
    assert(w[a_len] == 0u8);
    lemma_find_zero_skip(w, 0, a_len);
    assert(find_zero(w, a_len) == Some(a_len));
    assert(w.subrange(0, a_len) =~= addr);
    assert(spec_parse_str(w, 0) == Some((addr, pa)));

    // the type-tag string
    assert forall|k: int| 0 <= k < n + 1 implies w[pa + k] == tags[k] && tags[k] != 0u8 by {
        assert(tt[k] == tags[k]);
        if k == 0 {
            assert(tags[0] == 44u8);
        } else {
            assert(tags[k] == seq![44u8].add(Seq::new(n as nat, |i: int| 105u8))[k]);
            assert(tags[k] == 105u8);
        }
    }
    assert forall|k: int| pa <= k < pa + n + 1 implies w[k] != 0u8 by {
        assert(w[pa + (k - pa)] == tags[k - pa]);
    }
    assert(w[pa + n + 1] == tt[n + 1]);
    assert(tt[n + 1] == zeros_seq(tn - (n + 1))[0]);
    assert(w[pa + n + 1] == 0u8);
    lemma_find_zero_skip(w, pa, pa + n + 1);
    assert(find_zero(w, pa + n + 1) == Some(pa + n + 1));
    assert(find_zero(w, pa) == Some(pa + n + 1));
    assert(pad4((pa + n + 1) - pa + 1) == tn);
    assert(w.subrange(pa, pa + n + 1) =~= tags);
    assert(spec_parse_str(w, pa) == Some((tags, pa + tn)));

    // the arguments
    assert(w.subrange(pa + tn, pa + tn + 4 * n) =~= pp);
    assert forall|k: int| 1 <= k < tags.len() implies tags[k] == 105u8 by {
        assert(tags[k] == seq![44u8].add(Seq::new(n as nat, |i: int| 105u8))[k]);
    }
    lemma_parse_int_args(w, tags, 1, pa + tn, Seq::empty(), Seq::empty(), args);
    assert(Seq::<ArgModel>::empty().add(args.map_values(|x: i32| ArgModel::Int(x))) =~= args
        .map_values(|x: i32| ArgModel::Int(x)));
    assert(spec_parse_args(w, tags, pa + tn) == Some(
        (args.map_values(|x: i32| ArgModel::Int(x)), pa + tn + 4 * n),
    ));
    assert(spec_decode_message(w) == Some(
        MessageModel { addr, args: args.map_values(|x: i32| ArgModel::Int(x)) },
    ));

    // the whole packet
    if is_bundle(w) {
        assert(w.subrange(0, 8)[0] == w[0]);
        assert(bundle_tag()[0] == 35u8);
        assert(w[0] == addr[0]);
        assert(false);
    }
    assert(spec_decode(w) == Some(
        PacketModel::Message(
            MessageModel { addr, args: args.map_values(|x: i32| ArgModel::Int(x)) },
        ),
    ));
}

/// The payload of integer arguments occupies four bytes each.
pub proof fn lemma_int_payload_len(args: Seq<i32>)
    ensures
        int_payload(args).len() == 4 * args.len(),
    decreases args.len(),
{
    if args.len() > 0 {
        lemma_int_payload_len(args.drop_first());
    }
}

/// Reading back the four big-endian bytes of a 32-bit value yields the
/// value.
proof fn lemma_be_bytes_round_trip(w: Seq<u8>, pos: int, x: u32)
    requires
        0 <= pos,
        pos + 4 <= w.len(),
        w[pos] == (x >> 24) as u8,
        w[pos + 1] == (x >> 16) as u8,
        w[pos + 2] == (x >> 8) as u8,
        w[pos + 3] == x as u8,
    ensures
        be_u32_at(w, pos) == x,
{
    let b0 = (x >> 24) as u8;
    let b1 = (x >> 16) as u8;
    let b2 = (x >> 8) as u8;
    let b3 = x as u8;
    assert((((b0 as u32) << 24) | ((b1 as u32) << 16) | ((b2 as u32) << 8) | (b3 as u32)) == x)
        by (bit_vector)
        requires
            b0 == (x >> 24) as u8,
            b1 == (x >> 16) as u8,
            b2 == (x >> 8) as u8,
            b3 == x as u8,
    ;
}

/// Walking `args.len()` integer type tags over the bytes of
/// `int_payload(args)` appends the arguments to the current frame.
proof fn lemma_parse_int_args(
    w: Seq<u8>,
    tags: Seq<u8>,
    ti: int,
    pos: int,
    stack: Seq<Seq<ArgModel>>,
    cur: Seq<ArgModel>,
    args: Seq<i32>,
)
    requires
        0 <= ti <= tags.len(),
        tags.len() - ti == args.len(),
        forall|k: int| ti <= k < tags.len() ==> tags[k] == 105,
        0 <= pos,
        pos + 4 * args.len() <= w.len(),
        w.subrange(pos, pos + 4 * args.len()) == int_payload(args),
        stack.len() == 0,
    ensures
        spec_parse_tag_loop(w, tags, ti, pos, stack, cur) == Some(
            (cur.add(args.map_values(|x: i32| ArgModel::Int(x))), pos + 4 * args.len()),
        ),
    decreases args.len(),
{
    lemma_int_payload_len(args);
    if args.len() == 0 {
        assert(cur.add(args.map_values(|x: i32| ArgModel::Int(x))) =~= cur);
    } else {
        let x = args[0];
        let u = #[verifier::truncate] (x as u32);
        let rest = args.drop_first();
        lemma_int_payload_len(rest);
        let payload = int_payload(args);
        assert(payload == be_bytes_u32(u).add(int_payload(rest)));
        assert(payload[0] == (u >> 24) as u8 && payload[1] == (u >> 16) as u8 && payload[2] == (u
            >> 8) as u8 && payload[3] == u as u8);
        assert(w[pos] == payload[0] && w[pos + 1] == payload[1] && w[pos + 2] == payload[2] && w[pos
            + 3] == payload[3]) by {
            assert(forall|j: int|
                0 <= j < 4 * args.len() ==> w[pos + j] == #[trigger] payload[j]) by {
                assert(forall|j: int|
                    0 <= j < 4 * args.len() ==> #[trigger] payload[j] == w.subrange(
                        pos,
                        pos + 4 * args.len(),
                    )[j]);
            }
        }
        lemma_be_bytes_round_trip(w, pos, u);
        assert(be_u32_at(w, pos) as i32 == x) by {
            assert(((#[verifier::truncate] (x as u32)) as i32) == x) by (bit_vector);
        }
        assert(spec_parse_arg(w, 105u8, pos) == Some((ArgModel::Int(x), pos + 4)));
        assert(w.subrange(pos + 4, pos + 4 + 4 * rest.len()) =~= int_payload(rest)) by {
            assert(forall|j: int|
                0 <= j < 4 * rest.len() ==> #[trigger] w.subrange(
                    pos + 4,
                    pos + 4 + 4 * rest.len(),
                )[j] == w[pos + 4 + j]);
            assert(forall|j: int|
                0 <= j < 4 * args.len() ==> w[pos + j] == #[trigger] payload[j]) by {
                assert(forall|j: int|
                    0 <= j < 4 * args.len() ==> #[trigger] payload[j] == w.subrange(
                        pos,
                        pos + 4 * args.len(),
                    )[j]);
            }
            assert(forall|j: int|
                0 <= j < 4 * rest.len() ==> payload[4 + j] == #[trigger] int_payload(rest)[j]);
        }
        lemma_parse_int_args(w, tags, ti + 1, pos + 4, stack, cur.push(ArgModel::Int(x)), rest);
        assert(cur.push(ArgModel::Int(x)).add(rest.map_values(|y: i32| ArgModel::Int(y))) =~= cur
            .add(args.map_values(|y: i32| ArgModel::Int(y))));
    }
}

/// Appending one integer to the arguments appends its four bytes to the
/// payload.
proof fn lemma_int_payload_push(args: Seq<i32>, x: i32)
    ensures
        int_payload(args.push(x)) == int_payload(args).add(be_bytes_u32(x as u32)),
    decreases args.len(),
{
    let s = args.push(x);
    let ghost bytes = be_bytes_u32(#[verifier::truncate] (x as u32));
    if args.len() == 0 {
        assert(s[0] == x);
        assert(s.drop_first() =~= Seq::<i32>::empty());
        assert(int_payload(s.drop_first()) == Seq::<u8>::empty());
        assert(int_payload(s) == bytes.add(Seq::<u8>::empty()));
        assert(bytes.add(Seq::<u8>::empty()) =~= bytes);
        assert(int_payload(args).add(bytes) =~= bytes);
    } else {
        assert(s[0] == args[0]);
        assert(s.drop_first() =~= args.drop_first().push(x));
        lemma_int_payload_push(args.drop_first(), x);
        assert(int_payload(s) == be_bytes_u32(#[verifier::truncate] (args[0] as u32)).add(
            int_payload(args.drop_first()).add(bytes),
        ));
        assert(be_bytes_u32(#[verifier::truncate] (args[0] as u32)).add(
            int_payload(args.drop_first()).add(bytes),
        ) =~= be_bytes_u32(#[verifier::truncate] (args[0] as u32)).add(
            int_payload(args.drop_first()),
        ).add(bytes));
    }
}

/// Appends a string's wire form — content, terminator, zero padding —
/// to `out`.
fn push_padded_str(out: &mut Vec<u8>, s: &Vec<u8>) -> (r: ())
    requires
        s@.len() <= MAX_PACKET_LEN + 1,
    ensures
        final(out)@ == old(out)@.add(padded_str(s@)),
{
    let ghost base = out@;
    let mut i: usize = 0;
    while i < s.len()
        invariant
            0 <= i <= s@.len(),
            out@ == base.add(s@.subrange(0, i as int)),
        decreases s@.len() - i,
    {
        out.push(s[i]);
        proof {
            assert(base.add(s@.subrange(0, i as int)).push(s@[i as int]) =~= base.add(
                s@.subrange(0, i as int + 1),
            ));
        }
        i = i + 1;
    }
    proof {
        assert(s@.subrange(0, s@.len() as int) =~= s@);
    }
    let pad_total = pad4_len(s.len() + 1);
    let mut j: usize = s.len();
    while j < pad_total
        invariant
            s@.len() <= j <= pad_total,
            pad_total as int == pad4(s@.len() as int + 1),
            out@ == base.add(s@).add(zeros_seq(j - s@.len())),
        decreases pad_total - j,
    {
        out.push(0);
        proof {
            assert(base.add(s@).add(zeros_seq(j - s@.len())).push(0u8) =~= base.add(s@).add(
                zeros_seq(j + 1 - s@.len()),
            ));
        }
        j = j + 1;
    }
    proof {
        assert(base.add(s@).add(zeros_seq(pad4(s@.len() as int + 1) - s@.len())) =~= base.add(
            padded_str(s@),
        ));
        assert(base.add(s@).add(zeros_seq(0)) =~= base.add(s@));
    }
}

/// Encodes a message whose arguments are all integers into its wire
/// form.
pub fn encode_int_message_bytes(addr: &Vec<u8>, args: &Vec<i32>) -> (r: Vec<u8>)
    requires
        addr@.len() <= MAX_PACKET_LEN,
        args@.len() <= MAX_PACKET_LEN,
    ensures
        r@ == encode_int_message(addr@, args@),
{
    let mut out: Vec<u8> = Vec::new();
    proof {
        assert(Seq::<u8>::empty().add(padded_str(addr@)) =~= padded_str(addr@));
    }
    push_padded_str(&mut out, addr);
    let mut tags: Vec<u8> = Vec::new();
    tags.push(44);  // ','
    let mut t: usize = 0;
    while t < args.len()
        invariant
            0 <= t <= args@.len() <= MAX_PACKET_LEN,
            tags@ == int_tags(t as int),
        decreases args@.len() - t,
    {
        tags.push(105);  // 'i'
        proof {
            assert(int_tags(t as int).push(105u8) =~= int_tags(t as int + 1));
        }
        t = t + 1;
    }
    proof {
        assert(seq![44u8].add(Seq::new(0nat, |i: int| 105u8)) =~= seq![44u8]);
        assert(tags@ == int_tags(args@.len() as int));
    }
    push_padded_str(&mut out, &tags);
    let ghost head = out@;
    let mut k: usize = 0;
    proof {
        assert(head.add(int_payload(args@.subrange(0, 0))) =~= head);
    }
    while k < args.len()
        invariant
            0 <= k <= args@.len() <= MAX_PACKET_LEN,
            head == padded_str(addr@).add(padded_str(int_tags(args@.len() as int))),
            out@ == head.add(int_payload(args@.subrange(0, k as int))),
        decreases args@.len() - k,
    {
        let x = args[k];
        let v = #[verifier::truncate] (x as u32);
        out.push((v >> 24u32) as u8);
        out.push((v >> 16u32) as u8);
        out.push(#[verifier::truncate] ((v >> 8u32) as u8));
        out.push(#[verifier::truncate] (v as u8));
        proof {
            let prefix = args@.subrange(0, k as int);
            assert(args@.subrange(0, k as int + 1) =~= prefix.push(x));
            lemma_int_payload_push(prefix, x);
            assert(head.add(int_payload(prefix)).push((v >> 24) as u8).push((v >> 16) as u8).push(
                ((v >> 8) as u8),
            ).push((v as u8)) =~= head.add(int_payload(prefix).add(be_bytes_u32(x as u32))));
        }
        k = k + 1;
    }
    proof {
        assert(args@.subrange(0, args@.len() as int) =~= args@);
    }
    out
}

} // verus!
