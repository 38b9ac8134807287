//! Byte layout of the datagrams peers exchange.
//!
//! Every message starts with a kind byte, a 4-byte session nonce and an
//! 8-byte number, both little-endian: the timestamp to echo for handshake
//! messages, the tick for input messages. An input message goes on with a
//! count byte and one sample byte per local player.
use vstd::prelude::*;
use crate::codec::{from_byte, InputSample, SAMPLE_MASK};

verus! {

pub const KIND_SYNC_REQUEST: u8 = 0;
pub const KIND_SYNC_REPLY: u8 = 1;
pub const KIND_INPUT: u8 = 2;
/// Length of the common header.
pub const HEADER_LEN: usize = 13;

pub enum Message {
    SyncRequest { nonce: u32, timestamp_ms: u64 },
    SyncReply { nonce: u32, timestamp_ms: u64 },
    Input { nonce: u32, tick: u64, samples: Vec<InputSample> },
}

/// A message with its samples as a sequence.
pub enum MessageModel {
    SyncRequest { nonce: u32, timestamp_ms: u64 },
    SyncReply { nonce: u32, timestamp_ms: u64 },
    Input { nonce: u32, tick: u64, samples: Seq<InputSample> },
}

impl Message {
    pub open spec fn view(&self) -> MessageModel {
        match self {
            Message::SyncRequest { nonce, timestamp_ms } => MessageModel::SyncRequest {
                nonce: *nonce,
                timestamp_ms: *timestamp_ms,
            },
            Message::SyncReply { nonce, timestamp_ms } => MessageModel::SyncReply {
                nonce: *nonce,
                timestamp_ms: *timestamp_ms,
            },
            Message::Input { nonce, tick, samples } => MessageModel::Input {
                nonce: *nonce,
                tick: *tick,
                samples: samples@,
            },
        }
    }
}

pub open spec fn u32_le(v: u32) -> Seq<u8> {
    seq![(v & 0xff) as u8, ((v >> 8) & 0xff) as u8, ((v >> 16) & 0xff) as u8, ((v >> 24) & 0xff) as u8]
}

pub open spec fn u64_le(v: u64) -> Seq<u8> {
    seq![
        (v & 0xff) as u8,
        ((v >> 8) & 0xff) as u8,
        ((v >> 16) & 0xff) as u8,
        ((v >> 24) & 0xff) as u8,
        ((v >> 32) & 0xff) as u8,
        ((v >> 40) & 0xff) as u8,
        ((v >> 48) & 0xff) as u8,
        ((v >> 56) & 0xff) as u8,
    ]
}

pub open spec fn read_u32_le(b: Seq<u8>, at: int) -> u32 {
    (b[at] as u32) | ((b[at + 1] as u32) << 8) | ((b[at + 2] as u32) << 16) | ((b[at + 3] as u32)
        << 24)
}

pub open spec fn read_u64_le(b: Seq<u8>, at: int) -> u64 {
    (b[at] as u64) | ((b[at + 1] as u64) << 8) | ((b[at + 2] as u64) << 16) | ((b[at + 3] as u64)
        << 24) | ((b[at + 4] as u64) << 32) | ((b[at + 5] as u64) << 40) | ((b[at + 6] as u64)
        << 48) | ((b[at + 7] as u64) << 56)
}

pub open spec fn sample_bytes(s: Seq<InputSample>) -> Seq<u8> {
    Seq::new(s.len(), |i: int| s[i].bits)
}

/// The bytes of a message.
pub open spec fn encode_spec(m: MessageModel) -> Seq<u8> {
    match m {
        MessageModel::SyncRequest { nonce, timestamp_ms } => seq![KIND_SYNC_REQUEST] + u32_le(
            nonce,
        ) + u64_le(timestamp_ms),
        MessageModel::SyncReply { nonce, timestamp_ms } => seq![KIND_SYNC_REPLY] + u32_le(nonce)
            + u64_le(timestamp_ms),
        MessageModel::Input { nonce, tick, samples } => seq![KIND_INPUT] + u32_le(nonce) + u64_le(
            tick,
        ) + seq![samples.len() as u8] + sample_bytes(samples),
    }
}

/// The message that `b` holds, if it is well formed: a known kind, the
/// exact length, and for input messages samples with unused bits clear.
pub open spec fn parse_spec(b: Seq<u8>) -> Option<MessageModel> {
    if b.len() < HEADER_LEN {
        None
    } else {
        let nonce = read_u32_le(b, 1);
        let num = read_u64_le(b, 5);
        if b[0] == KIND_SYNC_REQUEST && b.len() == HEADER_LEN {
            Some(MessageModel::SyncRequest { nonce, timestamp_ms: num })
        } else if b[0] == KIND_SYNC_REPLY && b.len() == HEADER_LEN {
            Some(MessageModel::SyncReply { nonce, timestamp_ms: num })
        } else if b[0] == KIND_INPUT && b.len() > HEADER_LEN && b.len() == HEADER_LEN + 1
            + b[HEADER_LEN as int] && (forall|i: int|
            HEADER_LEN + 1 <= i < b.len() ==> #[trigger] b[i] <= SAMPLE_MASK) {
            Some(
                MessageModel::Input {
                    nonce,
                    tick: num,
                    samples: Seq::new(
                        b[HEADER_LEN as int] as nat,
                        |i: int| InputSample { bits: b[HEADER_LEN + 1 + i] },
                    ),
                },
            )
        } else {
            None
        }
    }
}

/// Messages that can be written: at most 255 samples, each valid.
pub open spec fn encodable(m: MessageModel) -> bool {
    match m {
        MessageModel::Input { samples, .. } => samples.len() <= 255 && forall|i: int|
            0 <= i < samples.len() ==> (#[trigger] samples[i]).wf(),
        _ => true,
    }
}

proof fn lemma_u32_round_trip(v: u32)
    ensures
        read_u32_le(u32_le(v), 0) == v,
{
    let b = u32_le(v);
    let b0 = (v & 0xff) as u8;
    let b1 = ((v >> 8) & 0xff) as u8;
    let b2 = ((v >> 16) & 0xff) as u8;
    let b3 = ((v >> 24) & 0xff) as u8;
    assert(b[0] == b0 && b[1] == b1 && b[2] == b2 && b[3] == b3);
    assert((b0 as u32) | ((b1 as u32) << 8) | ((b2 as u32) << 16) | ((b3 as u32) << 24) == v)
        by (bit_vector)
        requires
            b0 == (v & 0xff) as u8,
            b1 == ((v >> 8) & 0xff) as u8,
            b2 == ((v >> 16) & 0xff) as u8,
            b3 == ((v >> 24) & 0xff) as u8,
    ;
}

proof fn lemma_u64_round_trip(v: u64)
    ensures
        read_u64_le(u64_le(v), 0) == v,
{
    let b = u64_le(v);
    let b0 = (v & 0xff) as u8;
    let b1 = ((v >> 8) & 0xff) as u8;
    let b2 = ((v >> 16) & 0xff) as u8;
    let b3 = ((v >> 24) & 0xff) as u8;
    let b4 = ((v >> 32) & 0xff) as u8;
    let b5 = ((v >> 40) & 0xff) as u8;
    let b6 = ((v >> 48) & 0xff) as u8;
    let b7 = ((v >> 56) & 0xff) as u8;
    assert(b[0] == b0 && b[1] == b1 && b[2] == b2 && b[3] == b3);
    assert(b[4] == b4 && b[5] == b5 && b[6] == b6 && b[7] == b7);
    assert((b0 as u64) | ((b1 as u64) << 8) | ((b2 as u64) << 16) | ((b3 as u64) << 24) | ((
    b4 as u64) << 32) | ((b5 as u64) << 40) | ((b6 as u64) << 48) | ((b7 as u64) << 56) == v)
        by (bit_vector)
        requires
            b0 == (v & 0xff) as u8,
            b1 == ((v >> 8) & 0xff) as u8,
            b2 == ((v >> 16) & 0xff) as u8,
            b3 == ((v >> 24) & 0xff) as u8,
            b4 == ((v >> 32) & 0xff) as u8,
            b5 == ((v >> 40) & 0xff) as u8,
            b6 == ((v >> 48) & 0xff) as u8,
            b7 == ((v >> 56) & 0xff) as u8,
    ;
}

/// Parsing the bytes of an encodable message gives the message back.
pub proof fn lemma_parse_encode(m: MessageModel)
    requires
        encodable(m),
    ensures
        parse_spec(encode_spec(m)) == Some(m),
{
    let b = encode_spec(m);
    let (nonce, num) = match m {
        MessageModel::SyncRequest { nonce, timestamp_ms } => (nonce, timestamp_ms),
        MessageModel::SyncReply { nonce, timestamp_ms } => (nonce, timestamp_ms),
        MessageModel::Input { nonce, tick, .. } => (nonce, tick),
    };
    lemma_u32_round_trip(nonce);
    lemma_u64_round_trip(num);
    assert(b.subrange(1, 5) =~= u32_le(nonce));
    assert(b.subrange(5, 13) =~= u64_le(num));
    assert(read_u32_le(b, 1) == read_u32_le(b.subrange(1, 5), 0));
    assert(read_u64_le(b, 5) == read_u64_le(b.subrange(5, 13), 0));
    if let MessageModel::Input { nonce, tick, samples } = m {
        assert(b[HEADER_LEN as int] == samples.len() as u8);
        assert forall|i: int| HEADER_LEN + 1 <= i < b.len() implies #[trigger] b[i] <= SAMPLE_MASK by {
            assert(b[i] == samples[i - 14].bits);
        }
        if let Some(MessageModel::Input { samples: s2, .. }) = parse_spec(b) {
            assert(s2 =~= samples);
        }
    }
}

fn push_u32(out: &mut Vec<u8>, v: u32)
    ensures
        final(out)@ == old(out)@ + u32_le(v),
{
    out.push((v & 0xff) as u8);
    out.push(((v >> 8) & 0xff) as u8);
    out.push(((v >> 16) & 0xff) as u8);
    out.push(((v >> 24) & 0xff) as u8);
    assert(final(out)@ =~= old(out)@ + u32_le(v));
}

fn push_u64(out: &mut Vec<u8>, v: u64)
    ensures
        final(out)@ == old(out)@ + u64_le(v),
{
    out.push((v & 0xff) as u8);
    out.push(((v >> 8) & 0xff) as u8);
    out.push(((v >> 16) & 0xff) as u8);
    out.push(((v >> 24) & 0xff) as u8);
    out.push(((v >> 32) & 0xff) as u8);
    out.push(((v >> 40) & 0xff) as u8);
    out.push(((v >> 48) & 0xff) as u8);
    out.push(((v >> 56) & 0xff) as u8);
    assert(final(out)@ =~= old(out)@ + u64_le(v));
}

fn read_u32(b: &Vec<u8>, at: usize) -> (r: u32)
    requires
        at + 4 <= b@.len(),
        at <= HEADER_LEN,
    ensures
        r == read_u32_le(b@, at as int),
{
    (b[at] as u32) | ((b[at + 1] as u32) << 8) | ((b[at + 2] as u32) << 16) | ((b[at + 3] as u32)
        << 24)
}

fn read_u64(b: &Vec<u8>, at: usize) -> (r: u64)
    requires
        at + 8 <= b@.len(),
        at <= HEADER_LEN,
    ensures
        r == read_u64_le(b@, at as int),
{
    (b[at] as u64) | ((b[at + 1] as u64) << 8) | ((b[at + 2] as u64) << 16) | ((b[at + 3] as u64)
        << 24) | ((b[at + 4] as u64) << 32) | ((b[at + 5] as u64) << 40) | ((b[at + 6] as u64)
        << 48) | ((b[at + 7] as u64) << 56)
}

/// The bytes of `m`, or `None` for an input message with more than 255
/// samples or a sample with unused bits set.
pub fn encode(m: &Message) -> (r: Option<Vec<u8>>)
    ensures
        r is Some <==> encodable(m@),
        r matches Some(b) ==> b@ == encode_spec(m@),
{
    let mut out: Vec<u8> = Vec::new();
    match m {
        Message::SyncRequest { nonce, timestamp_ms } => {
            out.push(KIND_SYNC_REQUEST);
            push_u32(&mut out, *nonce);
            push_u64(&mut out, *timestamp_ms);
        },
        Message::SyncReply { nonce, timestamp_ms } => {
            out.push(KIND_SYNC_REPLY);
            push_u32(&mut out, *nonce);
            push_u64(&mut out, *timestamp_ms);
        },
        Message::Input { nonce, tick, samples } => {
            if samples.len() > 255 {
                return None;
            }
            out.push(KIND_INPUT);
            push_u32(&mut out, *nonce);
            push_u64(&mut out, *tick);
            out.push(samples.len() as u8);
            let ghost head = out@;
            let mut i: usize = 0;
            while i < samples.len()
                invariant
                    i <= samples@.len(),
                    m@ is Input,
                    m@->Input_samples == samples@,
                    out@ == head + sample_bytes(samples@.take(i as int)),
                    forall|k: int| 0 <= k < i ==> (#[trigger] samples@[k]).wf(),
                decreases samples@.len() - i,
            {
                if samples[i].bits > SAMPLE_MASK {
                    assert(!samples@[i as int].wf());
                    return None;
                }
                out.push(samples[i].bits);
                i = i + 1;
                assert(sample_bytes(samples@.take(i as int)) =~= sample_bytes(
                    samples@.take(i - 1),
                ).push(samples@[i - 1].bits));
            }
            assert(samples@.take(i as int) =~= samples@);
        },
    }
    assert(out@ =~= encode_spec(m@));
    Some(out)
}

/// The message that `b` holds, or `None` where it is not well formed.
pub fn parse(b: &Vec<u8>) -> (r: Option<Message>)
    ensures
        match r {
            Some(m) => parse_spec(b@) == Some(m@),
            None => parse_spec(b@) is None,
        },
{
    if b.len() < HEADER_LEN {
        return None;
    }
    let nonce = read_u32(b, 1);
    let num = read_u64(b, 5);
    if b[0] == KIND_SYNC_REQUEST && b.len() == HEADER_LEN {
        return Some(Message::SyncRequest { nonce, timestamp_ms: num });
    }
    if b[0] == KIND_SYNC_REPLY && b.len() == HEADER_LEN {
        return Some(Message::SyncReply { nonce, timestamp_ms: num });
    }
    if b[0] != KIND_INPUT || b.len() <= HEADER_LEN || b.len() != HEADER_LEN + 1
        + b[HEADER_LEN] as usize {
        return None;
    }
    let n: usize = b[HEADER_LEN] as usize;
    let mut samples: Vec<InputSample> = Vec::new();
    let mut i: usize = 0;
    while i < n
        invariant
            b@.len() == HEADER_LEN + 1 + n,
            n <= 255,
            i <= n,
            samples@.len() == i,
            forall|k: int| 0 <= k < i ==> (#[trigger] samples@[k]).bits == b@[HEADER_LEN + 1 + k],
            forall|k: int| HEADER_LEN + 1 <= k < HEADER_LEN + 1 + i ==> #[trigger] b@[k] <= SAMPLE_MASK,
        decreases n - i,
    {
        let v = b[HEADER_LEN + 1 + i];
        if v > SAMPLE_MASK {
            return None;
        }
        let s = from_byte(v);
        samples.push(s);
        i = i + 1;
    }
    let r = Message::Input { nonce, tick: num, samples };
    proof {
        if let Some(MessageModel::Input { samples: s2, .. }) = parse_spec(b@) {
            assert(s2 =~= r@->Input_samples);
        }
    }
    Some(r)
}

} // verus!
