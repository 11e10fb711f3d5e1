//! Wire codec: one frame per datagram, encoded as a variable-length
//! little-endian base-128 sequence number followed by a tag byte and the
//! payload fields in declaration order. Decoding is exact: unknown tags,
//! truncated fields, non-canonical integers and trailing garbage are all
//! rejected, so every well-formed datagram has exactly one reading.

use vstd::prelude::*;

use crate::msg::{DisconnectReason, MessagePayload, PlugId, PlugMessage};

verus! {

/// A datagram that does not spell a frame: truncated, an unknown tag, a
/// non-canonical integer, or bytes past the end of the frame.
#[derive(Debug, Clone, Copy, PartialEq, Eq, Structural)]
pub enum CodecError {
    Malformed,
}

/// Little-endian base-128 encoding of `n`: seven value bits per byte, the
/// high bit marking a continuation. The empty value 0 is one zero byte.
pub open spec fn varint_bytes(n: nat) -> Seq<u8>
    decreases n,
{
    if n < 128 {
        seq![n as u8]
    } else {
        seq![(128 + n % 128) as u8] + varint_bytes(n / 128)
    }
}

/// Reads one canonical base-128 integer from the front of `b`, returning the
/// value and the number of bytes consumed. Rejects encodings with redundant
/// leading-zero continuation bytes, so each value has exactly one spelling.
pub open spec fn take_varint(b: Seq<u8>) -> Option<(nat, nat)>
    decreases b.len(),
{
    if b.len() == 0 {
        None
    } else if b[0] < 128 {
        Some(((b[0] as nat), 1nat))
    } else {
        match take_varint(b.skip(1)) {
            None => None,
            Some((v, l)) => if v == 0 {
                None
            } else {
                Some((((v * 128 + b[0] - 128) as nat), (l + 1) as nat))
            },
        }
    }
}

/// Reading an encoded value back gives the value, whatever follows it.
pub proof fn lemma_take_varint_of_bytes(n: nat, rest: Seq<u8>)
    ensures
        take_varint(varint_bytes(n) + rest) == Some((n, varint_bytes(n).len())),
    decreases n,
{
    let whole = varint_bytes(n) + rest;
    if n < 128 {
        assert(whole[0] == n as u8);
    } else {
        assert(whole[0] == (128 + n % 128) as u8);
        assert(whole[0] >= 128);
        assert(whole.skip(1) =~= varint_bytes(n / 128) + rest);
        lemma_take_varint_of_bytes(n / 128, rest);
        assert(n / 128 >= 1);
        assert((n / 128) * 128 + (128 + n % 128) - 128 == n) by {
            vstd::arithmetic::div_mod::lemma_fundamental_div_mod(n as int, 128);
        }
    }
}

/// What `take_varint` consumes is exactly the canonical encoding of the value
/// it returns: the reader accepts one spelling per value, no other.
pub proof fn lemma_take_varint_prefix(b: Seq<u8>)
    ensures
        match take_varint(b) {
            Some((v, l)) => 1 <= l <= b.len() && b.take(l as int) == varint_bytes(v),
            None => true,
        },
    decreases b.len(),
{
    if b.len() == 0 {
    } else if b[0] < 128 {
        assert(b.take(1) =~= seq![b[0]]);
    } else {
        lemma_take_varint_prefix(b.skip(1));
        match take_varint(b.skip(1)) {
            None => {},
            Some((v, l)) => {
                if v != 0 {
                    let n = (v * 128 + b[0] - 128) as nat;
                    assert(n / 128 == v && n % 128 == b[0] - 128) by {
                        vstd::arithmetic::div_mod::lemma_fundamental_div_mod_converse(
                            n as int, 128, v as int, b[0] - 128);
                    }
                    assert(n >= 128) by {
                        assert(v >= 1);
                        assert(v * 128 >= 128) by (nonlinear_arith)
                            requires v >= 1;
                    }
                    assert(b.skip(1).take(l as int) == varint_bytes(v));
                    assert(b.take(l + 1 as int) =~= seq![b[0]] + b.skip(1).take(l as int));
                    assert(varint_bytes(n) == seq![(128 + n % 128) as u8] + varint_bytes(n / 128));
                    assert(b[0] == (128 + n % 128) as u8);
                    assert(b.take(l + 1 as int) == varint_bytes(n));
                }
            },
        }
    }
}

/// 128 raised to `k`.
pub open spec fn pow128(k: nat) -> nat
    decreases k,
{
    if k == 0 {
        1
    } else {
        128 * pow128((k - 1) as nat)
    }
}

/// A value below `128^k` encodes in at most `k` bytes.
pub proof fn lemma_varint_len(n: nat, k: nat)
    requires
        k >= 1,
        n < pow128(k),
    ensures
        varint_bytes(n).len() <= k,
    decreases k,
{
    if n >= 128 {
        assert(pow128(k) == 128 * pow128((k - 1) as nat));
        assert(n / 128 < pow128((k - 1) as nat)) by (nonlinear_arith)
            requires n < 128 * pow128((k - 1) as nat);
        lemma_varint_len(n / 128, (k - 1) as nat);
    }
}

/// Every frame fits one datagram with room to spare: at most five bytes of
/// sequence number, a tag and sixteen bytes of fields.
pub proof fn lemma_frame_bytes_bounded(m: PlugMessage)
    ensures
        frame_bytes(m).len() <= 22,
{
    assert(pow128(5) == 0x800000000) by {
        reveal_with_fuel(pow128, 6);
    }
    lemma_varint_len(m.seq as nat, 5);
    match m.payload {
        MessagePayload::Conn { id } => lemma_le_bytes_len(id.0 as nat, 16),
        MessagePayload::Ping { data } => lemma_le_bytes_len(data as nat, 16),
        MessagePayload::Pong { data } => lemma_le_bytes_len(data as nat, 16),
        _ => {},
    }
}

/// `le_bytes` spells exactly as many bytes as asked.
pub proof fn lemma_le_bytes_len(n: nat, len: nat)
    ensures
        le_bytes(n, len).len() == len,
    decreases len,
{
    if len > 0 {
        lemma_le_bytes_len(n / 256, (len - 1) as nat);
    }
}

/// Appends the canonical base-128 encoding of `n`.
fn write_varint(out: &mut Vec<u8>, n: u32)
    ensures
        final(out)@ == old(out)@ + varint_bytes(n as nat),
    decreases n,
{
    if n < 128 {
        out.push(n as u8);
        assert(out@ =~= old(out)@ + varint_bytes(n as nat));
    } else {
        let ghost mid = out@;
        out.push((128 + n % 128) as u8);
        assert(out@ =~= mid + seq![(128 + (n as nat) % 128) as u8]);
        write_varint(out, n / 128);
        assert(out@ =~= old(out)@ + varint_bytes(n as nat));
    }
}

/// Reads one canonical base-128 integer that fits in 32 bits, starting at
/// index `i`. `None` means the bytes spell no canonical value, or one above
/// `u32::MAX`.
fn read_varint(b: &[u8], i: usize) -> (r: Option<(u32, usize)>)
    requires
        i <= b@.len(),
    ensures
        match r {
            Some((v, j)) => i < j <= b@.len() && take_varint(b@.skip(i as int)) == Some((
                v as nat,
                (j - i) as nat,
            )),
            None => take_varint(b@.skip(i as int)) matches Some((v, _)) ==> v > u32::MAX,
        },
    decreases b@.len() - i,
{
    if i >= b.len() {
        assert(b@.skip(i as int).len() == 0);
        return None;
    }
    let c = b[i];
    assert(b@.skip(i as int)[0] == c);
    if c < 128 {
        Some((c as u32, i + 1))
    } else {
        assert(b@.skip(i as int).skip(1) =~= b@.skip(i + 1));
        match read_varint(b, i + 1) {
            None => None,
            Some((v, j)) => {
                if v == 0 {
                    None
                } else if v > u32::MAX / 128 {
                    proof {
                        assert(v * 128 > (u32::MAX / 128) * 128) by (nonlinear_arith)
                            requires v > u32::MAX / 128;
                    }
                    None
                } else {
                    proof {
                        assert(v * 128 <= (u32::MAX / 128) * 128) by (nonlinear_arith)
                            requires v <= u32::MAX / 128;
                    }
                    Some((v * 128 + (c - 128) as u32, j))
                }
            },
        }
    }
}

/// 256 raised to `k`.
pub open spec fn pow256(k: nat) -> nat
    decreases k,
{
    if k == 0 {
        1
    } else {
        256 * pow256((k - 1) as nat)
    }
}

/// `len` bytes spelling `n % 256^len`, least-significant byte first.
pub open spec fn le_bytes(n: nat, len: nat) -> Seq<u8>
    decreases len,
{
    if len == 0 {
        Seq::empty()
    } else {
        seq![(n % 256) as u8] + le_bytes(n / 256, (len - 1) as nat)
    }
}

/// The value spelled by a whole byte string read little-endian.
pub open spec fn le_value(b: Seq<u8>) -> nat
    decreases b.len(),
{
    if b.len() == 0 {
        0nat
    } else {
        (b[0] + 256 * le_value(b.skip(1))) as nat
    }
}

/// A little-endian string of `len` bytes spells a value below `256^len`.
pub proof fn lemma_le_value_bound(b: Seq<u8>)
    ensures
        le_value(b) < pow256(b.len()),
    decreases b.len(),
{
    if b.len() > 0 {
        lemma_le_value_bound(b.skip(1));
        assert(256 * le_value(b.skip(1)) <= 256 * (pow256((b.len() - 1) as nat) - 1))
            by (nonlinear_arith)
            requires le_value(b.skip(1)) <= pow256((b.len() - 1) as nat) - 1;
    }
}

/// Reading back `len` little-endian bytes of a value below `256^len` gives
/// the value.
pub proof fn lemma_le_value_of_bytes(n: nat, len: nat)
    requires
        n < pow256(len),
    ensures
        le_bytes(n, len).len() == len,
        le_value(le_bytes(n, len)) == n,
    decreases len,
{
    if len > 0 {
        assert(n / 256 < pow256((len - 1) as nat)) by (nonlinear_arith)
            requires n < 256 * pow256((len - 1) as nat);
        lemma_le_value_of_bytes(n / 256, (len - 1) as nat);
        assert(le_bytes(n, len).skip(1) =~= le_bytes(n / 256, (len - 1) as nat));
        vstd::arithmetic::div_mod::lemma_fundamental_div_mod(n as int, 256);
    }
}

/// Spelling the value of a byte string back over the same length gives the
/// string: little-endian readings are unique.
pub proof fn lemma_le_bytes_of_value(b: Seq<u8>)
    ensures
        le_bytes(le_value(b), b.len()) == b,
    decreases b.len(),
{
    if b.len() > 0 {
        lemma_le_bytes_of_value(b.skip(1));
        let n = le_value(b);
        assert(n / 256 == le_value(b.skip(1)) && n % 256 == b[0]) by {
            vstd::arithmetic::div_mod::lemma_fundamental_div_mod_converse(
                n as int, 256, le_value(b.skip(1)) as int, b[0] as int);
        }
        assert(le_bytes(n, b.len()) =~= seq![b[0]] + le_bytes(le_value(b.skip(1)), (b.len() - 1) as nat));
        assert(le_bytes(n, b.len()) =~= b);
    }
}

/// Appends `len` little-endian bytes of `n`.
fn write_le(out: &mut Vec<u8>, n: u128, len: usize)
    ensures
        final(out)@ == old(out)@ + le_bytes(n as nat, len as nat),
    decreases len,
{
    if len > 0 {
        let ghost mid = out@;
        out.push((n % 256) as u8);
        assert(out@ =~= mid + seq![((n as nat) % 256) as u8]);
        write_le(out, n / 256, len - 1);
        assert(out@ =~= old(out)@ + le_bytes(n as nat, len as nat));
    } else {
        assert(out@ =~= old(out)@ + le_bytes(n as nat, 0));
    }
}

/// Reads `len <= 16` little-endian bytes starting at `i`.
fn read_le(b: &[u8], i: usize, len: usize) -> (r: u128)
    requires
        len <= 16,
        i + len <= b@.len(),
    ensures
        r as nat == le_value(b@.subrange(i as int, i + len)),
    decreases len,
{
    proof {
        lemma_le_value_bound(b@.subrange(i as int, i + len));
        lemma_pow256_le(len as nat, 16);
    }
    if len == 0 {
        assert(b@.subrange(i as int, i as int).len() == 0);
        0
    } else {
        let lo = b[i];
        let hi = read_le(b, i + 1, len - 1);
        proof {
            let whole = b@.subrange(i as int, i + len);
            assert(whole[0] == b@[i as int]);
            assert(whole.skip(1) =~= b@.subrange(i + 1, i + 1 + (len - 1)));
            lemma_le_value_bound(whole.skip(1));
            lemma_pow256_le((len - 1) as nat, 15);
            assert(256 * le_value(whole.skip(1)) <= 256 * (pow256(15) - 1)) by (nonlinear_arith)
                requires le_value(whole.skip(1)) <= pow256(15) - 1;
            assert(256nat * pow256(15) == pow256(16));
            assert(pow256(16) == 0x100000000000000000000000000000000) by {
                reveal_with_fuel(pow256, 17);
            }
        }
        lo as u128 + 256 * hi
    }
}

/// The tag byte that opens each payload variant's encoding.
pub open spec fn payload_tag(p: MessagePayload) -> u8 {
    match p {
        MessagePayload::Conn { .. } => 0,
        MessagePayload::ConnAck => 1,
        MessagePayload::Disconnect { .. } => 2,
        MessagePayload::Ping { .. } => 3,
        MessagePayload::Pong { .. } => 4,
        MessagePayload::TurnOn => 5,
        MessagePayload::TurnOnAck => 6,
        MessagePayload::TurnOnNotify => 7,
        MessagePayload::TurnOff => 8,
        MessagePayload::TurnOffAck => 9,
        MessagePayload::TurnOffNotify => 10,
        MessagePayload::QueryStatus => 11,
        MessagePayload::StatusResp { .. } => 12,
    }
}

/// The byte standing for each disconnect reason.
pub open spec fn reason_tag(r: DisconnectReason) -> u8 {
    match r {
        DisconnectReason::BadHeartbeat => 0,
        DisconnectReason::Timeout => 1,
        DisconnectReason::ProtocolError => 2,
        DisconnectReason::SequenceError => 3,
        DisconnectReason::Closed => 4,
    }
}

/// The reason a byte stands for, if any.
pub open spec fn reason_of_tag(t: u8) -> Option<DisconnectReason> {
    if t == 0 {
        Some(DisconnectReason::BadHeartbeat)
    } else if t == 1 {
        Some(DisconnectReason::Timeout)
    } else if t == 2 {
        Some(DisconnectReason::ProtocolError)
    } else if t == 3 {
        Some(DisconnectReason::SequenceError)
    } else if t == 4 {
        Some(DisconnectReason::Closed)
    } else {
        None
    }
}

/// A payload's encoding: its tag byte, then its fields in declaration order.
pub open spec fn payload_bytes(p: MessagePayload) -> Seq<u8> {
    match p {
        MessagePayload::Conn { id } => seq![0u8] + le_bytes(id.0 as nat, 16),
        MessagePayload::Disconnect { reason } => seq![2u8, reason_tag(reason)],
        MessagePayload::Ping { data } => seq![3u8] + le_bytes(data as nat, 16),
        MessagePayload::Pong { data } => seq![4u8] + le_bytes(data as nat, 16),
        MessagePayload::StatusResp { is_on } => seq![12u8, if is_on { 1u8 } else { 0u8 }],
        _ => seq![payload_tag(p)],
    }
}

/// Reads a whole byte string as one payload. The fields must fill the string
/// exactly: anything shorter, longer or off the tag table is no payload.
pub open spec fn parse_payload(b: Seq<u8>) -> Option<MessagePayload> {
    if b.len() == 0 {
        None
    } else {
        let tag = b[0];
        let rest = b.skip(1);
        if tag == 0 {
            if rest.len() == 16 {
                Some(MessagePayload::Conn { id: PlugId(le_value(rest) as u128) })
            } else {
                None
            }
        } else if tag == 1 {
            if rest.len() == 0 { Some(MessagePayload::ConnAck) } else { None }
        } else if tag == 2 {
            if rest.len() == 1 {
                match reason_of_tag(rest[0]) {
                    Some(reason) => Some(MessagePayload::Disconnect { reason }),
                    None => None,
                }
            } else {
                None
            }
        } else if tag == 3 {
            if rest.len() == 16 {
                Some(MessagePayload::Ping { data: le_value(rest) as u128 })
            } else {
                None
            }
        } else if tag == 4 {
            if rest.len() == 16 {
                Some(MessagePayload::Pong { data: le_value(rest) as u128 })
            } else {
                None
            }
        } else if tag == 5 {
            if rest.len() == 0 { Some(MessagePayload::TurnOn) } else { None }
        } else if tag == 6 {
            if rest.len() == 0 { Some(MessagePayload::TurnOnAck) } else { None }
        } else if tag == 7 {
            if rest.len() == 0 { Some(MessagePayload::TurnOnNotify) } else { None }
        } else if tag == 8 {
            if rest.len() == 0 { Some(MessagePayload::TurnOff) } else { None }
        } else if tag == 9 {
            if rest.len() == 0 { Some(MessagePayload::TurnOffAck) } else { None }
        } else if tag == 10 {
            if rest.len() == 0 { Some(MessagePayload::TurnOffNotify) } else { None }
        } else if tag == 11 {
            if rest.len() == 0 { Some(MessagePayload::QueryStatus) } else { None }
        } else if tag == 12 {
            if rest.len() == 1 && rest[0] <= 1 {
                Some(MessagePayload::StatusResp { is_on: rest[0] == 1 })
            } else {
                None
            }
        } else {
            None
        }
    }
}

/// A frame's encoding: the sequence number, then the payload.
pub open spec fn frame_bytes(m: PlugMessage) -> Seq<u8> {
    varint_bytes(m.seq as nat) + payload_bytes(m.payload)
}

/// Reads a whole byte string as one frame, rejecting trailing bytes.
pub open spec fn parse_frame(b: Seq<u8>) -> Option<PlugMessage> {
    match take_varint(b) {
        None => None,
        Some((v, l)) => if v > u32::MAX {
            None
        } else {
            match parse_payload(b.skip(l as int)) {
                None => None,
                Some(p) => Some(PlugMessage { seq: v as u32, payload: p }),
            }
        },
    }
}

/// Decoding an encoded message gives the message back: every representable
/// frame survives the trip onto the wire and back.
pub proof fn lemma_parse_of_frame_bytes(m: PlugMessage)
    ensures
        parse_frame(frame_bytes(m)) == Some(m),
{
    let b = frame_bytes(m);
    lemma_take_varint_of_bytes(m.seq as nat, payload_bytes(m.payload));
    let l = varint_bytes(m.seq as nat).len();
    assert(b.skip(l as int) =~= payload_bytes(m.payload));
    lemma_parse_of_payload_bytes(m.payload);
}

/// Reading back an encoded payload gives the payload.
pub proof fn lemma_parse_of_payload_bytes(p: MessagePayload)
    ensures
        parse_payload(payload_bytes(p)) == Some(p),
{
    let b = payload_bytes(p);
    reveal_with_fuel(pow256, 17);
    match p {
        MessagePayload::Conn { id } => {
            assert(b.skip(1) =~= le_bytes(id.0 as nat, 16));
            lemma_le_value_of_bytes(id.0 as nat, 16);
        },
        MessagePayload::Ping { data } => {
            assert(b.skip(1) =~= le_bytes(data as nat, 16));
            lemma_le_value_of_bytes(data as nat, 16);
        },
        MessagePayload::Pong { data } => {
            assert(b.skip(1) =~= le_bytes(data as nat, 16));
            lemma_le_value_of_bytes(data as nat, 16);
        },
        MessagePayload::Disconnect { reason } => {
            assert(b.skip(1) =~= seq![reason_tag(reason)]);
        },
        MessagePayload::StatusResp { is_on } => {
            assert(b.skip(1) =~= seq![if is_on { 1u8 } else { 0u8 }]);
        },
        _ => {
            assert(b.skip(1) =~= Seq::<u8>::empty());
        },
    }
}

/// Encoding a decoded frame gives the bytes back: a well-formed datagram has
/// exactly one reading, and that reading re-encodes to the same bytes.
pub proof fn lemma_frame_bytes_of_parse(b: Seq<u8>)
    ensures
        parse_frame(b) matches Some(m) ==> frame_bytes(m) == b,
{
    if let Some(m) = parse_frame(b) {
        let (v, l) = take_varint(b).unwrap();
        lemma_take_varint_prefix(b);
        lemma_payload_bytes_of_parse(b.skip(l as int));
        assert(b =~= b.take(l as int) + b.skip(l as int));
    }
}

/// Re-encoding a parsed payload gives the bytes back.
pub proof fn lemma_payload_bytes_of_parse(b: Seq<u8>)
    ensures
        parse_payload(b) matches Some(p) ==> payload_bytes(p) == b,
{
    if let Some(p) = parse_payload(b) {
        let tag = b[0];
        let rest = b.skip(1);
        if tag == 0 || tag == 3 || tag == 4 {
            lemma_le_value_bound(rest);
            reveal_with_fuel(pow256, 17);
            lemma_le_bytes_of_value(rest);
            assert(payload_bytes(p) =~= seq![tag] + rest);
            assert(seq![tag] + rest =~= b);
        } else {
            assert(payload_bytes(p) =~= b);
        }
    }
}

/// The symmetric frame codec both peers run; one frame per datagram.
pub struct BrokerCodec;

impl BrokerCodec {
    /// Encodes one frame into the bytes of one datagram.
    pub fn encode(&self, item: &PlugMessage) -> (r: Vec<u8>)
        ensures
            r@ == frame_bytes(*item),
    {
        let mut out: Vec<u8> = Vec::new();
        write_varint(&mut out, item.seq);
        match &item.payload {
            MessagePayload::Conn { id } => {
                out.push(0);
                write_le(&mut out, id.0, 16);
            },
            MessagePayload::ConnAck => { out.push(1); },
            MessagePayload::Disconnect { reason } => {
                out.push(2);
                let t: u8 = match reason {
                    DisconnectReason::BadHeartbeat => 0,
                    DisconnectReason::Timeout => 1,
                    DisconnectReason::ProtocolError => 2,
                    DisconnectReason::SequenceError => 3,
                    DisconnectReason::Closed => 4,
                };
                out.push(t);
            },
            MessagePayload::Ping { data } => {
                out.push(3);
                write_le(&mut out, *data, 16);
            },
            MessagePayload::Pong { data } => {
                out.push(4);
                write_le(&mut out, *data, 16);
            },
            MessagePayload::TurnOn => { out.push(5); },
            MessagePayload::TurnOnAck => { out.push(6); },
            MessagePayload::TurnOnNotify => { out.push(7); },
            MessagePayload::TurnOff => { out.push(8); },
            MessagePayload::TurnOffAck => { out.push(9); },
            MessagePayload::TurnOffNotify => { out.push(10); },
            MessagePayload::QueryStatus => { out.push(11); },
            MessagePayload::StatusResp { is_on } => {
                out.push(12);
                out.push(if *is_on { 1 } else { 0 });
            },
        }
        proof {
            assert(out@ =~= frame_bytes(*item));
        }
        out
    }

    /// Decodes the bytes of one datagram. An empty buffer carries no frame
    /// and yields `Ok(None)`, as a stream decoder reports "read more";
    /// anything non-empty either spells exactly one frame or is malformed.
    pub fn decode(&self, src: &[u8]) -> (r: Result<Option<PlugMessage>, CodecError>)
        ensures
            src@.len() == 0 ==> r == Ok::<Option<PlugMessage>, CodecError>(None),
            src@.len() > 0 ==> match r {
                Ok(Some(m)) => parse_frame(src@) == Some(m),
                Ok(None) => false,
                Err(_) => parse_frame(src@) is None,
            },
    {
        if src.len() == 0 {
            return Ok(None);
        }
        proof {
            assert(src@.skip(0) =~= src@);
        }
        let (seq, i) = match read_varint(src, 0) {
            Some(p) => p,
            None => { return Err(CodecError::Malformed); },
        };
        let ghost rest = src@.skip(i as int);
        if i >= src.len() {
            proof { assert(rest.len() == 0); }
            return Err(CodecError::Malformed);
        }
        let tag = src[i];
        proof { assert(rest[0] == tag); }
        let body = i + 1;
        let rem = src.len() - body;
        proof {
            assert(rest.skip(1) =~= src@.skip(body as int));
            assert(rest.skip(1).len() == rem);
        }
        let payload: MessagePayload = match tag {
            0 => {
                if rem != 16 {
                    return Err(CodecError::Malformed);
                }
                let v = read_le(src, body, 16);
                proof {
                    assert(src@.subrange(body as int, body + 16) =~= rest.skip(1));
                }
                MessagePayload::Conn { id: PlugId(v) }
            },
            1 => {
                if rem != 0 {
                    return Err(CodecError::Malformed);
                }
                MessagePayload::ConnAck
            },
            2 => {
                if rem != 1 {
                    return Err(CodecError::Malformed);
                }
                proof { assert(rest.skip(1)[0] == src@[body as int]); }
                let reason = match src[body] {
                    0 => DisconnectReason::BadHeartbeat,
                    1 => DisconnectReason::Timeout,
                    2 => DisconnectReason::ProtocolError,
                    3 => DisconnectReason::SequenceError,
                    4 => DisconnectReason::Closed,
                    _ => { return Err(CodecError::Malformed); },
                };
                MessagePayload::Disconnect { reason }
            },
            3 => {
                if rem != 16 {
                    return Err(CodecError::Malformed);
                }
                let v = read_le(src, body, 16);
                proof {
                    assert(src@.subrange(body as int, body + 16) =~= rest.skip(1));
                }
                MessagePayload::Ping { data: v }
            },
            4 => {
                if rem != 16 {
                    return Err(CodecError::Malformed);
                }
                let v = read_le(src, body, 16);
                proof {
                    assert(src@.subrange(body as int, body + 16) =~= rest.skip(1));
                }
                MessagePayload::Pong { data: v }
            },
            5 => {
                if rem != 0 {
                    return Err(CodecError::Malformed);
                }
                MessagePayload::TurnOn
            },
            6 => {
                if rem != 0 {
                    return Err(CodecError::Malformed);
                }
                MessagePayload::TurnOnAck
            },
            7 => {
                if rem != 0 {
                    return Err(CodecError::Malformed);
                }
                MessagePayload::TurnOnNotify
            },
            8 => {
                if rem != 0 {
                    return Err(CodecError::Malformed);
                }
                MessagePayload::TurnOff
            },
            9 => {
                if rem != 0 {
                    return Err(CodecError::Malformed);
                }
                MessagePayload::TurnOffAck
            },
            10 => {
                if rem != 0 {
                    return Err(CodecError::Malformed);
                }
                MessagePayload::TurnOffNotify
            },
            11 => {
                if rem != 0 {
                    return Err(CodecError::Malformed);
                }
                MessagePayload::QueryStatus
            },
            12 => {
                if rem != 1 {
                    return Err(CodecError::Malformed);
                }
                proof { assert(rest.skip(1)[0] == src@[body as int]); }
                let is_on = match src[body] {
                    0 => false,
                    1 => true,
                    _ => { return Err(CodecError::Malformed); },
                };
                MessagePayload::StatusResp { is_on }
            },
            _ => { return Err(CodecError::Malformed); },
        };
        Ok(Some(PlugMessage { seq, payload }))
    }
}

/// `256^a <= 256^b` when `a <= b`.
pub proof fn lemma_pow256_le(a: nat, b: nat)
    requires
        a <= b,
    ensures
        pow256(a) <= pow256(b),
        pow256(a) >= 1,
    decreases b,
{
    if b > 0 {
        if a == b {
            lemma_pow256_le((a - 1) as nat, (b - 1) as nat);
            assert(256 * pow256((a - 1) as nat) >= pow256((a - 1) as nat)) by (nonlinear_arith)
                requires pow256((a - 1) as nat) >= 1;
        } else {
            lemma_pow256_le(a, (b - 1) as nat);
            assert(256 * pow256((b - 1) as nat) >= pow256((b - 1) as nat)) by (nonlinear_arith)
                requires pow256((b - 1) as nat) >= 1;
        }
    }
}

} // verus!
