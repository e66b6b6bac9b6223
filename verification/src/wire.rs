//! The byte layout in which records cross between host and device.
//!
//! A record is a run of 32-bit words, each stored least significant byte
//! first. A body is eight words in the order position, mass, velocity, mu; the
//! configuration is two words followed by eight bytes of padding. The order
//! and the padding are part of what the kernel expects and may not change.

use crate::structures::{Body, DynamicConfig};
use vstd::prelude::*;

verus! {

/// Bytes that one body occupies.
pub const BODY_SIZE: u64 = 32;

/// Bytes that the configuration record occupies, padding included.
pub const CONFIG_SIZE: u64 = 16;

/// The four bytes of a word, least significant first.
#[verifier::opaque]
pub open spec fn word_bytes(w: u32) -> Seq<u8> {
    seq![
        (w % 0x100) as u8,
        (w / 0x100 % 0x100) as u8,
        (w / 0x1_0000 % 0x100) as u8,
        (w / 0x100_0000) as u8,
    ]
}

/// The word stored in the four bytes that start at `at`.
#[verifier::opaque]
pub open spec fn word_at(bytes: Seq<u8>, at: int) -> u32 {
    (bytes[at] + bytes[at + 1] * 0x100 + bytes[at + 2] * 0x1_0000 + bytes[at + 3] * 0x100_0000) as u32
}

impl Body {
    /// The 32 bytes of a body.
    pub open spec fn wire(self) -> Seq<u8> {
        word_bytes(self.position[0]) + word_bytes(self.position[1]) + word_bytes(self.position[2])
            + word_bytes(self.mass) + word_bytes(self.velocity[0]) + word_bytes(self.velocity[1])
            + word_bytes(self.velocity[2]) + word_bytes(self.mu)
    }

    /// The body stored in the 32 bytes that start at `at`.
    pub open spec fn at(bytes: Seq<u8>, at: int) -> Body {
        Body {
            position: [word_at(bytes, at), word_at(bytes, at + 4), word_at(bytes, at + 8)],
            mass: word_at(bytes, at + 12),
            velocity: [word_at(bytes, at + 16), word_at(bytes, at + 20), word_at(bytes, at + 24)],
            mu: word_at(bytes, at + 28),
        }
    }
}

impl DynamicConfig {
    /// The 16 bytes of the configuration record: the count, the step size,
    /// then padding of zeros.
    pub open spec fn wire(self) -> Seq<u8> {
        word_bytes(self.num_bodies) + word_bytes(self.dt) + seq![0u8, 0u8, 0u8, 0u8, 0u8, 0u8, 0u8, 0u8]
    }

    /// The configuration that a kernel reads from the start of `bytes`.
    pub open spec fn from_wire(bytes: Seq<u8>) -> DynamicConfig {
        DynamicConfig { num_bodies: word_at(bytes, 0), dt: word_at(bytes, 4) }
    }
}

/// The bytes of a run of bodies: each body's 32 bytes, in order.
pub open spec fn bodies_wire(bodies: Seq<Body>) -> Seq<u8>
    decreases bodies.len(),
{
    if bodies.len() == 0 {
        Seq::empty()
    } else {
        bodies_wire(bodies.drop_last()) + bodies.last().wire()
    }
}

/// The bodies stored back to back in `bytes`. Bytes after the last whole
/// record are not looked at.
pub open spec fn bodies_from_wire(bytes: Seq<u8>) -> Seq<Body> {
    Seq::new((bytes.len() / 32) as nat, |k: int| Body::at(bytes, 32 * k))
}

/// The digits of a number written in base 256 are its successive remainders.
proof fn lemma_base_256(b0: int, b1: int, b2: int, b3: int)
    requires
        0 <= b0 < 0x100,
        0 <= b1 < 0x100,
        0 <= b2 < 0x100,
        0 <= b3 < 0x100,
    ensures
        ({
            let w = b0 + b1 * 0x100 + b2 * 0x1_0000 + b3 * 0x100_0000;
            &&& 0 <= w < 0x1_0000_0000
            &&& w % 0x100 == b0
            &&& w / 0x100 % 0x100 == b1
            &&& w / 0x1_0000 % 0x100 == b2
            &&& w / 0x100_0000 == b3
        }),
{
    let w = b0 + b1 * 0x100 + b2 * 0x1_0000 + b3 * 0x100_0000;
    assert(w / 0x100 == b1 + b2 * 0x100 + b3 * 0x1_0000);
    assert(w / 0x1_0000 == b2 + b3 * 0x100);
    assert(w / 0x100_0000 == b3);
}

/// A word is recovered from its four bytes.
pub proof fn lemma_word_round_trip(w: u32)
    ensures
        word_bytes(w).len() == 4,
        word_at(word_bytes(w), 0) == w,
{
    reveal(word_bytes);
    reveal(word_at);
}

/// Four bytes are recovered from the word they store.
pub proof fn lemma_word_bytes_of_word_at(bytes: Seq<u8>, at: int)
    requires
        0 <= at,
        at + 4 <= bytes.len(),
    ensures
        word_bytes(word_at(bytes, at)) == bytes.subrange(at, at + 4),
{
    reveal(word_bytes);
    reveal(word_at);
    lemma_base_256(bytes[at] as int, bytes[at + 1] as int, bytes[at + 2] as int, bytes[at + 3] as int);
    assert(word_bytes(word_at(bytes, at)) =~= bytes.subrange(at, at + 4));
}

/// Where four bytes are those of a word, that word is read from them.
proof fn lemma_word_at_of(bytes: Seq<u8>, at: int, w: u32)
    requires
        0 <= at,
        at + 4 <= bytes.len(),
        bytes.subrange(at, at + 4) == word_bytes(w),
    ensures
        word_at(bytes, at) == w,
{
    reveal(word_at);
    let part = bytes.subrange(at, at + 4);
    assert(part[0] == bytes[at] && part[1] == bytes[at + 1] && part[2] == bytes[at + 2] && part[3]
        == bytes[at + 3]);
    lemma_word_round_trip(w);
}

/// Where in a body's 32 bytes each of its fields lies.
proof fn lemma_body_wire_fields(body: Body)
    ensures
        body.wire().len() == 32,
        body.wire().subrange(0, 4) == word_bytes(body.position[0]),
        body.wire().subrange(4, 8) == word_bytes(body.position[1]),
        body.wire().subrange(8, 12) == word_bytes(body.position[2]),
        body.wire().subrange(12, 16) == word_bytes(body.mass),
        body.wire().subrange(16, 20) == word_bytes(body.velocity[0]),
        body.wire().subrange(20, 24) == word_bytes(body.velocity[1]),
        body.wire().subrange(24, 28) == word_bytes(body.velocity[2]),
        body.wire().subrange(28, 32) == word_bytes(body.mu),
{
    lemma_word_round_trip(body.position[0]);
    lemma_word_round_trip(body.position[1]);
    lemma_word_round_trip(body.position[2]);
    lemma_word_round_trip(body.mass);
    lemma_word_round_trip(body.velocity[0]);
    lemma_word_round_trip(body.velocity[1]);
    lemma_word_round_trip(body.velocity[2]);
    lemma_word_round_trip(body.mu);
    let first2 = word_bytes(body.position[0]) + word_bytes(body.position[1]);
    let first3 = first2 + word_bytes(body.position[2]);
    let first4 = first3 + word_bytes(body.mass);
    let first5 = first4 + word_bytes(body.velocity[0]);
    let first6 = first5 + word_bytes(body.velocity[1]);
    let first7 = first6 + word_bytes(body.velocity[2]);
    let first8 = first7 + word_bytes(body.mu);
    assert(first8 == body.wire());
    assert(first2.subrange(0, 4) =~= word_bytes(body.position[0]));
    assert(first2.subrange(4, 8) =~= word_bytes(body.position[1]));
    assert(first3.subrange(0, 8) =~= first2);
    assert(first3.subrange(8, 12) =~= word_bytes(body.position[2]));
    assert(first4.subrange(0, 12) =~= first3);
    assert(first4.subrange(12, 16) =~= word_bytes(body.mass));
    assert(first5.subrange(0, 16) =~= first4);
    assert(first5.subrange(16, 20) =~= word_bytes(body.velocity[0]));
    assert(first6.subrange(0, 20) =~= first5);
    assert(first6.subrange(20, 24) =~= word_bytes(body.velocity[1]));
    assert(first7.subrange(0, 24) =~= first6);
    assert(first7.subrange(24, 28) =~= word_bytes(body.velocity[2]));
    assert(first8.subrange(0, 28) =~= first7);
    assert(first8.subrange(28, 32) =~= word_bytes(body.mu));
    assert(first8.subrange(0, 4) =~= first2.subrange(0, 4));
    assert(first8.subrange(4, 8) =~= first2.subrange(4, 8));
    assert(first8.subrange(8, 12) =~= first3.subrange(8, 12));
    assert(first8.subrange(12, 16) =~= first4.subrange(12, 16));
    assert(first8.subrange(16, 20) =~= first5.subrange(16, 20));
    assert(first8.subrange(20, 24) =~= first6.subrange(20, 24));
    assert(first8.subrange(24, 28) =~= first7.subrange(24, 28));
}

/// A body occupies 32 bytes, and is recovered from them wherever they lie.
pub proof fn lemma_body_round_trip(bytes: Seq<u8>, at: int, body: Body)
    requires
        0 <= at,
        at + 32 <= bytes.len(),
        bytes.subrange(at, at + 32) == body.wire(),
    ensures
        Body::at(bytes, at) == body,
{
    lemma_body_wire_fields(body);
    let wire = bytes.subrange(at, at + 32);
    assert(bytes.subrange(at, at + 4) =~= wire.subrange(0, 4));
    assert(bytes.subrange(at + 4, at + 8) =~= wire.subrange(4, 8));
    assert(bytes.subrange(at + 8, at + 12) =~= wire.subrange(8, 12));
    assert(bytes.subrange(at + 12, at + 16) =~= wire.subrange(12, 16));
    assert(bytes.subrange(at + 16, at + 20) =~= wire.subrange(16, 20));
    assert(bytes.subrange(at + 20, at + 24) =~= wire.subrange(20, 24));
    assert(bytes.subrange(at + 24, at + 28) =~= wire.subrange(24, 28));
    assert(bytes.subrange(at + 28, at + 32) =~= wire.subrange(28, 32));
    lemma_word_at_of(bytes, at, body.position[0]);
    lemma_word_at_of(bytes, at + 4, body.position[1]);
    lemma_word_at_of(bytes, at + 8, body.position[2]);
    lemma_word_at_of(bytes, at + 12, body.mass);
    lemma_word_at_of(bytes, at + 16, body.velocity[0]);
    lemma_word_at_of(bytes, at + 20, body.velocity[1]);
    lemma_word_at_of(bytes, at + 24, body.velocity[2]);
    lemma_word_at_of(bytes, at + 28, body.mu);
    let back = Body::at(bytes, at);
    assert(back.position =~= body.position);
    assert(back.velocity =~= body.velocity);
}

/// A run of bodies occupies 32 bytes for each of them.
pub proof fn lemma_bodies_wire_len(bodies: Seq<Body>)
    ensures
        bodies_wire(bodies).len() == 32 * bodies.len(),
    decreases bodies.len(),
{
    if bodies.len() > 0 {
        lemma_bodies_wire_len(bodies.drop_last());
        lemma_body_wire_fields(bodies.last());
    }
}

/// In the bytes of a run of bodies, the `k`-th 32 bytes are those of the
/// `k`-th body.
pub proof fn lemma_bodies_wire_at(bodies: Seq<Body>, k: int)
    requires
        0 <= k < bodies.len(),
    ensures
        bodies_wire(bodies).len() == 32 * bodies.len(),
        bodies_wire(bodies).subrange(32 * k, 32 * k + 32) == bodies[k].wire(),
    decreases bodies.len(),
{
    let front = bodies.drop_last();
    lemma_bodies_wire_len(bodies);
    lemma_bodies_wire_len(front);
    lemma_body_wire_fields(bodies.last());
    if k < bodies.len() - 1 {
        lemma_bodies_wire_at(front, k);
        assert(bodies_wire(bodies).subrange(32 * k, 32 * k + 32) =~= bodies_wire(front).subrange(
            32 * k,
            32 * k + 32,
        ));
    } else {
        assert(bodies_wire(bodies).subrange(32 * k, 32 * k + 32) =~= bodies.last().wire());
    }
}

/// Bodies are recovered from their bytes.
pub proof fn lemma_bodies_round_trip(bodies: Seq<Body>)
    ensures
        bodies_from_wire(bodies_wire(bodies)) == bodies,
{
    let bytes = bodies_wire(bodies);
    lemma_bodies_wire_len(bodies);
    assert forall|k: int| 0 <= k < bodies.len() implies Body::at(bytes, 32 * k) == bodies[k] by {
        lemma_bodies_wire_at(bodies, k);
        lemma_body_round_trip(bytes, 32 * k, bodies[k]);
    }
    assert(bodies_from_wire(bytes) =~= bodies);
}

/// The bytes of the body read at `at` are the 32 bytes found there.
pub proof fn lemma_body_wire_of_body_at(bytes: Seq<u8>, at: int)
    requires
        0 <= at,
        at + 32 <= bytes.len(),
    ensures
        Body::at(bytes, at).wire() == bytes.subrange(at, at + 32),
{
    let body = Body::at(bytes, at);
    lemma_body_wire_fields(body);
    lemma_word_bytes_of_word_at(bytes, at);
    lemma_word_bytes_of_word_at(bytes, at + 4);
    lemma_word_bytes_of_word_at(bytes, at + 8);
    lemma_word_bytes_of_word_at(bytes, at + 12);
    lemma_word_bytes_of_word_at(bytes, at + 16);
    lemma_word_bytes_of_word_at(bytes, at + 20);
    lemma_word_bytes_of_word_at(bytes, at + 24);
    lemma_word_bytes_of_word_at(bytes, at + 28);
    let wire = body.wire();
    let found = bytes.subrange(at, at + 32);
    assert forall|i: int| 0 <= i < 32 implies wire[i] == found[i] by {
        let j = i / 4;
        assert(wire[i] == wire.subrange(4 * j, 4 * j + 4)[i - 4 * j]);
        assert(found[i] == bytes.subrange(at + 4 * j, at + 4 * j + 4)[i - 4 * j]);
    }
    assert(wire =~= found);
}

/// A body is read from its own 32 bytes only: what lies behind them does not
/// matter.
pub proof fn lemma_body_at_in_prefix(bytes: Seq<u8>, len: int, at: int)
    requires
        0 <= at,
        at + 32 <= len <= bytes.len(),
    ensures
        Body::at(bytes.subrange(0, len), at) == Body::at(bytes, at),
{
    reveal(word_at);
    let front = bytes.subrange(0, len);
    assert forall|i: int| at <= i < at + 32 implies front[i] == bytes[i] by {}
    let a = Body::at(front, at);
    let b = Body::at(bytes, at);
    assert(word_at(front, at) == word_at(bytes, at));
    assert(word_at(front, at + 4) == word_at(bytes, at + 4));
    assert(word_at(front, at + 8) == word_at(bytes, at + 8));
    assert(word_at(front, at + 12) == word_at(bytes, at + 12));
    assert(word_at(front, at + 16) == word_at(bytes, at + 16));
    assert(word_at(front, at + 20) == word_at(bytes, at + 20));
    assert(word_at(front, at + 24) == word_at(bytes, at + 24));
    assert(word_at(front, at + 28) == word_at(bytes, at + 28));
    assert(a.position =~= b.position);
    assert(a.velocity =~= b.velocity);
}

/// The bodies read from the leading whole records of `bytes` are the leading
/// bodies read from all of `bytes`.
pub proof fn lemma_bodies_from_wire_prefix(bytes: Seq<u8>, count: int)
    requires
        0 <= count,
        32 * count <= bytes.len(),
    ensures
        bodies_from_wire(bytes.subrange(0, 32 * count)) == bodies_from_wire(bytes).subrange(
            0,
            count,
        ),
{
    let front = bytes.subrange(0, 32 * count);
    assert(front.len() / 32 == count);
    assert(bytes.len() / 32 >= count);
    assert forall|k: int| 0 <= k < count implies #[trigger] bodies_from_wire(front)[k]
        == bodies_from_wire(bytes)[k] by {
        lemma_body_at_in_prefix(bytes, 32 * count, 32 * k);
    }
    assert(bodies_from_wire(front) =~= bodies_from_wire(bytes).subrange(0, count));
}

/// Bytes that hold whole records are recovered from the bodies read from
/// them: decoding loses nothing.
pub proof fn lemma_wire_round_trip(bytes: Seq<u8>)
    requires
        bytes.len() % 32 == 0,
    ensures
        bodies_wire(bodies_from_wire(bytes)) == bytes,
    decreases bytes.len(),
{
    let bodies = bodies_from_wire(bytes);
    if bytes.len() == 0 {
        assert(bodies_wire(bodies) =~= bytes);
    } else {
        let n = bodies.len() as int;
        assert(bytes.len() == 32 * n);
        let cut = 32 * (n - 1);
        let front = bytes.subrange(0, cut);
        let back = bytes.subrange(cut, cut + 32);
        assert(front.len() == 32 * (n - 1));
        assert(front.len() % 32 == 0);
        lemma_wire_round_trip(front);
        lemma_bodies_from_wire_prefix(bytes, n - 1);
        assert(bodies.subrange(0, n - 1) =~= bodies.drop_last());
        assert(bodies_wire(bodies.drop_last()) == front);
        lemma_body_wire_of_body_at(bytes, cut);
        assert(bodies.last().wire() == back);
        assert(bodies_wire(bodies) == front + back);
        assert(front + back =~= bytes);
    }
}

/// Appends the four bytes of a word.
fn push_word(out: &mut Vec<u8>, w: u32)
    ensures
        final(out)@ == old(out)@ + word_bytes(w),
        final(out)@.len() == old(out)@.len() + 4,
{
    out.push((w % 0x100) as u8);
    out.push((w / 0x100 % 0x100) as u8);
    out.push((w / 0x1_0000 % 0x100) as u8);
    out.push((w / 0x100_0000) as u8);
    proof {
        reveal(word_bytes);
    }
    assert(out@ =~= old(out)@ + word_bytes(w));
}

/// Reads the word stored at `at`.
fn read_word(bytes: &[u8], at: usize) -> (w: u32)
    requires
        at + 4 <= bytes@.len() <= usize::MAX,
    ensures
        w == word_at(bytes@, at as int),
{
    let b0: u32 = bytes[at] as u32;
    let b1: u32 = bytes[at + 1] as u32;
    let b2: u32 = bytes[at + 2] as u32;
    let b3: u32 = bytes[at + 3] as u32;
    proof {
        reveal(word_at);
    }
    b0 + b1 * 0x100 + b2 * 0x1_0000 + b3 * 0x100_0000
}

/// Appends the 32 bytes of a body.
fn push_body(out: &mut Vec<u8>, body: &Body)
    ensures
        final(out)@ == old(out)@ + body.wire(),
{
    push_word(out, body.position[0]);
    push_word(out, body.position[1]);
    push_word(out, body.position[2]);
    push_word(out, body.mass);
    push_word(out, body.velocity[0]);
    push_word(out, body.velocity[1]);
    push_word(out, body.velocity[2]);
    push_word(out, body.mu);
    assert(out@ =~= old(out)@ + body.wire());
}

/// Reads the body stored at `at`.
fn read_body(bytes: &[u8], at: usize) -> (body: Body)
    requires
        at + 32 <= bytes@.len() <= usize::MAX,
    ensures
        body == Body::at(bytes@, at as int),
{
    let body = Body {
        position: [read_word(bytes, at), read_word(bytes, at + 4), read_word(bytes, at + 8)],
        mass: read_word(bytes, at + 12),
        velocity: [read_word(bytes, at + 16), read_word(bytes, at + 20), read_word(bytes, at + 24)],
        mu: read_word(bytes, at + 28),
    };
    proof {
        let want = Body::at(bytes@, at as int);
        assert(body.position =~= want.position);
        assert(body.velocity =~= want.velocity);
    }
    body
}

/// The bytes that a run of bodies occupies in device memory.
pub fn encode_bodies(bodies: &[Body]) -> (bytes: Vec<u8>)
    ensures
        bytes@ == bodies_wire(bodies@),
        bytes@.len() == 32 * bodies@.len(),
{
    let mut bytes: Vec<u8> = Vec::new();
    let mut k: usize = 0;
    while k < bodies.len()
        invariant
            k <= bodies@.len(),
            bytes@ == bodies_wire(bodies@.subrange(0, k as int)),
        decreases bodies@.len() - k,
    {
        push_body(&mut bytes, &bodies[k]);
        proof {
            let grown = bodies@.subrange(0, k + 1);
            assert(grown.drop_last() =~= bodies@.subrange(0, k as int));
            assert(grown.last() == bodies@[k as int]);
        }
        k += 1;
    }
    proof {
        assert(bodies@.subrange(0, k as int) =~= bodies@);
        lemma_bodies_wire_len(bodies@);
    }
    bytes
}

/// The bodies stored back to back in bytes read from device memory. Bytes
/// after the last whole record are not looked at.
pub fn decode_bodies(bytes: &[u8]) -> (bodies: Vec<Body>)
    ensures
        bodies@ == bodies_from_wire(bytes@),
        bodies@.len() == bytes@.len() / 32,
{
    let count: usize = bytes.len() / 32;
    let mut bodies: Vec<Body> = Vec::new();
    let mut k: usize = 0;
    while k < count
        invariant
            k <= count,
            count == bytes@.len() / 32,
            bytes@.len() <= usize::MAX,
            bodies@.len() == k,
            forall|j: int| 0 <= j < k ==> bodies@[j] == Body::at(bytes@, 32 * j),
        decreases count - k,
    {
        bodies.push(read_body(bytes, 32 * k));
        k += 1;
    }
    assert(bodies@ =~= bodies_from_wire(bytes@));
    bodies
}

impl DynamicConfig {
    /// The 16 bytes that are uploaded to the device's configuration buffer.
    pub fn to_wire(&self) -> (bytes: Vec<u8>)
        ensures
            bytes@ == self.wire(),
            bytes@.len() == 16,
    {
        let mut bytes: Vec<u8> = Vec::new();
        push_word(&mut bytes, self.num_bodies);
        push_word(&mut bytes, self.dt);
        assert(bytes@.subrange(0, 8) =~= word_bytes(self.num_bodies) + word_bytes(self.dt));
        let mut k: usize = 8;
        while k < 16
            invariant
                8 <= k <= 16,
                bytes@.len() == k,
                bytes@.subrange(0, 8) == word_bytes(self.num_bodies) + word_bytes(self.dt),
                forall|j: int| 8 <= j < k ==> bytes@[j] == 0,
            decreases 16 - k,
        {
            let ghost before = bytes@;
            bytes.push(0);
            assert(bytes@.subrange(0, 8) =~= before.subrange(0, 8));
            k += 1;
        }
        assert(bytes@ =~= self.wire());
        bytes
    }
}

/// The configuration is recovered from its 16 bytes.
pub proof fn lemma_config_round_trip(config: DynamicConfig)
    ensures
        config.wire().len() == 16,
        DynamicConfig::from_wire(config.wire()) == config,
{
    let bytes = config.wire();
    lemma_word_round_trip(config.num_bodies);
    lemma_word_round_trip(config.dt);
    assert(bytes.subrange(0, 4) =~= word_bytes(config.num_bodies));
    assert(bytes.subrange(4, 8) =~= word_bytes(config.dt));
    lemma_word_at_of(bytes, 0, config.num_bodies);
    lemma_word_at_of(bytes, 4, config.dt);
}

} // verus!
