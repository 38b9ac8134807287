//! Packing of one player's directional controls into a one-byte sample.
use vstd::prelude::*;

verus! {

/// Bit of the "up" control in a packed sample.
pub const UP_BIT: u8 = 1;
/// Bit of the "down" control in a packed sample.
pub const DOWN_BIT: u8 = 2;
/// Bit of the "right" control in a packed sample.
pub const RIGHT_BIT: u8 = 4;
/// Bit of the "left" control in a packed sample.
pub const LEFT_BIT: u8 = 8;
/// The bits a sample may use; all others are zero.
pub const SAMPLE_MASK: u8 = 15;

/// The raw state of the four directional controls for one tick.
#[derive(Clone, Copy, Debug, PartialEq, Eq, Structural)]
pub struct Controls {
    pub up: bool,
    pub down: bool,
    pub right: bool,
    pub left: bool,
}

/// One player's input for one tick: one bit per control.
#[derive(Clone, Copy, Debug, PartialEq, Eq, Structural)]
pub struct InputSample {
    pub bits: u8,
}

/// Per-axis intent decoded from a sample, each component in -1..=1.
#[derive(Clone, Copy, Debug, PartialEq, Eq, Structural)]
pub struct AxisIntent {
    pub horizontal: i8,
    pub vertical: i8,
}

impl InputSample {
    /// Unused bits are zero.
    pub open spec fn wf(self) -> bool {
        self.bits <= SAMPLE_MASK
    }

    /// The sample with no control pressed.
    pub fn neutral() -> (r: InputSample)
        ensures
            r.bits == 0,
            r.wf(),
    {
        InputSample { bits: 0 }
    }
}

pub open spec fn flag(on: bool, mask: u8) -> u8 {
    if on {
        mask
    } else {
        0
    }
}

pub open spec fn encode_spec(c: Controls) -> InputSample {
    InputSample {
        bits: flag(c.up, UP_BIT) | flag(c.down, DOWN_BIT) | flag(c.right, RIGHT_BIT) | flag(
            c.left,
            LEFT_BIT,
        ),
    }
}

pub open spec fn decode_spec(s: InputSample) -> Controls {
    Controls {
        up: s.bits & UP_BIT != 0,
        down: s.bits & DOWN_BIT != 0,
        right: s.bits & RIGHT_BIT != 0,
        left: s.bits & LEFT_BIT != 0,
    }
}

pub open spec fn axis_spec(pos: bool, neg: bool) -> i8 {
    if pos && !neg {
        1
    } else if neg && !pos {
        -1i8
    } else {
        0
    }
}

pub open spec fn intent_spec(s: InputSample) -> AxisIntent {
    AxisIntent {
        horizontal: axis_spec(decode_spec(s).right, decode_spec(s).left),
        vertical: axis_spec(decode_spec(s).up, decode_spec(s).down),
    }
}

proof fn lemma_packed_bits(u: u8, d: u8, r: u8, l: u8)
    requires
        u == 0 || u == 1,
        d == 0 || d == 2,
        r == 0 || r == 4,
        l == 0 || l == 8,
    ensures
        ((u | d | r | l) & 1 != 0) == (u == 1),
        ((u | d | r | l) & 2 != 0) == (d == 2),
        ((u | d | r | l) & 4 != 0) == (r == 4),
        ((u | d | r | l) & 8 != 0) == (l == 8),
        (u | d | r | l) <= 15,
{
    assert(((u | d | r | l) & 1 != 0) == (u == 1)) by (bit_vector)
        requires
            u == 0 || u == 1,
            d == 0 || d == 2,
            r == 0 || r == 4,
            l == 0 || l == 8,
    ;
    assert(((u | d | r | l) & 2 != 0) == (d == 2)) by (bit_vector)
        requires
            u == 0 || u == 1,
            d == 0 || d == 2,
            r == 0 || r == 4,
            l == 0 || l == 8,
    ;
    assert(((u | d | r | l) & 4 != 0) == (r == 4)) by (bit_vector)
        requires
            u == 0 || u == 1,
            d == 0 || d == 2,
            r == 0 || r == 4,
            l == 0 || l == 8,
    ;
    assert(((u | d | r | l) & 8 != 0) == (l == 8)) by (bit_vector)
        requires
            u == 0 || u == 1,
            d == 0 || d == 2,
            r == 0 || r == 4,
            l == 0 || l == 8,
    ;
    assert((u | d | r | l) <= 15) by (bit_vector)
        requires
            u == 0 || u == 1,
            d == 0 || d == 2,
            r == 0 || r == 4,
            l == 0 || l == 8,
    ;
}

proof fn lemma_split_bits(b: u8)
    requires
        b <= 15,
    ensures
        b == flag(b & 1 != 0, 1) | flag(b & 2 != 0, 2) | flag(b & 4 != 0, 4) | flag(b & 8 != 0, 8),
{
    assert(b == (b & 1) | (b & 2) | (b & 4) | (b & 8)) by (bit_vector)
        requires
            b <= 15,
    ;
    assert((b & 1) == flag(b & 1 != 0, 1)) by {
        assert((b & 1) == 0 || (b & 1) == 1) by (bit_vector);
    }
    assert((b & 2) == flag(b & 2 != 0, 2)) by {
        assert((b & 2) == 0 || (b & 2) == 2) by (bit_vector);
    }
    assert((b & 4) == flag(b & 4 != 0, 4)) by {
        assert((b & 4) == 0 || (b & 4) == 4) by (bit_vector);
    }
    assert((b & 8) == flag(b & 8 != 0, 8)) by {
        assert((b & 8) == 0 || (b & 8) == 8) by (bit_vector);
    }
}

/// Packs the controls into a sample, one bit per control.
pub fn encode(c: Controls) -> (r: InputSample)
    ensures
        r == encode_spec(c),
        r.wf(),
{
    let u: u8 = if c.up { UP_BIT } else { 0 };
    let d: u8 = if c.down { DOWN_BIT } else { 0 };
    let rt: u8 = if c.right { RIGHT_BIT } else { 0 };
    let l: u8 = if c.left { LEFT_BIT } else { 0 };
    proof {
        lemma_packed_bits(u, d, rt, l);
    }
    InputSample { bits: u | d | rt | l }
}

/// Unpacks a sample into the state of each control.
pub fn decode(s: InputSample) -> (r: Controls)
    ensures
        r == decode_spec(s),
{
    Controls {
        up: s.bits & UP_BIT != 0,
        down: s.bits & DOWN_BIT != 0,
        right: s.bits & RIGHT_BIT != 0,
        left: s.bits & LEFT_BIT != 0,
    }
}

fn axis(pos: bool, neg: bool) -> (r: i8)
    ensures
        r == axis_spec(pos, neg),
{
    if pos && !neg {
        1
    } else if neg && !pos {
        -1
    } else {
        0
    }
}

/// The per-axis intent of a sample: up/right count +1, down/left -1, and
/// opposite controls cancel.
pub fn intent(s: InputSample) -> (r: AxisIntent)
    ensures
        r == intent_spec(s),
{
    let c = decode(s);
    AxisIntent { horizontal: axis(c.right, c.left), vertical: axis(c.up, c.down) }
}

/// The sample's wire byte.
pub fn to_byte(s: InputSample) -> (r: u8)
    ensures
        r == s.bits,
{
    s.bits
}

/// Reads a sample from its wire byte; bits outside the mask are cleared,
/// so every byte gives a valid sample.
pub fn from_byte(b: u8) -> (r: InputSample)
    ensures
        r.bits == b & SAMPLE_MASK,
        r.wf(),
        b <= SAMPLE_MASK ==> r.bits == b,
{
    assert(b & 15 <= 15) by (bit_vector);
    assert(b <= 15 ==> b & 15 == b) by (bit_vector);
    InputSample { bits: b & SAMPLE_MASK }
}

/// Decoding an encoded control state gives that state back.
pub proof fn lemma_decode_encode(c: Controls)
    ensures
        decode_spec(encode_spec(c)) == c,
{
    lemma_packed_bits(flag(c.up, 1), flag(c.down, 2), flag(c.right, 4), flag(c.left, 8));
}

/// Every valid sample is the encoding of its decoded controls, so the codec
/// is a bijection between control states and valid samples.
pub proof fn lemma_encode_decode(s: InputSample)
    requires
        s.wf(),
    ensures
        encode_spec(decode_spec(s)) == s,
{
    lemma_split_bits(s.bits);
}

/// A valid sample survives the trip through its wire byte.
pub proof fn lemma_byte_round_trip(s: InputSample)
    requires
        s.wf(),
    ensures
        (s.bits & SAMPLE_MASK) == s.bits,
{
    let b = s.bits;
    assert(b <= 15 ==> b & 15 == b) by (bit_vector);
}

} // verus!
