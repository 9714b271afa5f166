//! The ping/pong message pair and its counting actor.
//!
//! A `Ping` carries a sequence number and a text; the `PingActor`
//! counts the pings it has processed and answers each with a `Pong`
//! echoing the sequence number, greeting the ping's text, and carrying
//! the running total.
//! The payload codecs here are exact, so a ping or pong round-trips
//! through its bytes unchanged.

use vstd::prelude::*;
use vstd::bytes::{
    lemma_auto_spec_u64_to_from_le_bytes, spec_u64_from_le_bytes, spec_u64_to_le_bytes,
    u64_from_le_bytes, u64_to_le_bytes,
};
use vstd::slice::{slice_subrange, slice_to_vec};
use crate::envelope::append_bytes;
use crate::runtime::Handler;
use crate::ticks::{sat_add, spec_sat_add};

verus! {

/// The wire discriminator both ends bind to the ping message type.
pub const PING_MESSAGE_TYPE: u128 = 0xa1b2c3d4_e5f6_7890_abcd_ef1234567890;

/// A request: a text and the sender's sequence number.
#[derive(Debug)]
pub struct Ping {
    pub message: Vec<u8>,
    pub sequence: u64,
}

/// Mathematical model of a `Ping`.
#[verifier::ext_equal]
pub struct PingView {
    pub message: Seq<u8>,
    pub sequence: u64,
}

impl View for Ping {
    type V = PingView;

    open spec fn view(&self) -> PingView {
        PingView { message: self.message@, sequence: self.sequence }
    }
}

/// The reply: the echoed text and sequence number, and the actor's
/// running total of pings processed.
#[derive(Debug)]
pub struct Pong {
    pub message: Vec<u8>,
    pub sequence: u64,
    pub total_pings: u64,
}

/// Mathematical model of a `Pong`.
#[verifier::ext_equal]
pub struct PongView {
    pub message: Seq<u8>,
    pub sequence: u64,
    pub total_pings: u64,
}

impl View for Pong {
    type V = PongView;

    open spec fn view(&self) -> PongView {
        PongView { message: self.message@, sequence: self.sequence, total_pings: self.total_pings }
    }
}

/// Ping payload layout: the sequence number, then the text.
pub open spec fn spec_encode_ping(p: PingView) -> Seq<u8> {
    spec_u64_to_le_bytes(p.sequence) + p.message
}

/// The ping a payload spells: any payload of at least eight bytes.
pub open spec fn spec_decode_ping(s: Seq<u8>) -> Option<PingView> {
    if s.len() < 8 {
        None
    } else {
        Some(
            PingView {
                message: s.subrange(8, s.len() as int),
                sequence: spec_u64_from_le_bytes(s.subrange(0, 8)),
            },
        )
    }
}

/// Pong payload layout: sequence, total, then the text.
pub open spec fn spec_encode_pong(p: PongView) -> Seq<u8> {
    spec_u64_to_le_bytes(p.sequence) + spec_u64_to_le_bytes(p.total_pings) + p.message
}

/// The pong a payload spells: any payload of at least sixteen bytes.
pub open spec fn spec_decode_pong(s: Seq<u8>) -> Option<PongView> {
    if s.len() < 16 {
        None
    } else {
        Some(
            PongView {
                message: s.subrange(16, s.len() as int),
                sequence: spec_u64_from_le_bytes(s.subrange(0, 8)),
                total_pings: spec_u64_from_le_bytes(s.subrange(8, 16)),
            },
        )
    }
}

/// Decoding a ping payload inverts encoding it.
pub proof fn lemma_ping_round_trip(p: PingView)
    ensures
        spec_decode_ping(spec_encode_ping(p)) == Some(p),
{
    lemma_auto_spec_u64_to_from_le_bytes();
    let s = spec_encode_ping(p);
    assert(s.subrange(0, 8) =~= spec_u64_to_le_bytes(p.sequence));
    assert(s.subrange(8, s.len() as int) =~= p.message);
    assert(spec_decode_ping(s).unwrap() =~= p);
}

/// Decoding a pong payload inverts encoding it.
pub proof fn lemma_pong_round_trip(p: PongView)
    ensures
        spec_decode_pong(spec_encode_pong(p)) == Some(p),
{
    lemma_auto_spec_u64_to_from_le_bytes();
    let s = spec_encode_pong(p);
    assert(s.subrange(0, 8) =~= spec_u64_to_le_bytes(p.sequence));
    assert(s.subrange(8, 16) =~= spec_u64_to_le_bytes(p.total_pings));
    assert(s.subrange(16, s.len() as int) =~= p.message);
    assert(spec_decode_pong(s).unwrap() =~= p);
}

pub fn encode_ping(p: &Ping) -> (r: Vec<u8>)
    ensures
        r@ == spec_encode_ping(p@),
{
    let mut out = u64_to_le_bytes(p.sequence);
    append_bytes(&mut out, &p.message);
    out
}

pub fn decode_ping(payload: &Vec<u8>) -> (r: Option<Ping>)
    ensures
        match r {
            Some(p) => spec_decode_ping(payload@) == Some(p@),
            None => spec_decode_ping(payload@) is None,
        },
{
    let s = payload.as_slice();
    if s.len() < 8 {
        return None;
    }
    let sequence = u64_from_le_bytes(slice_subrange(s, 0, 8));
    let message = slice_to_vec(slice_subrange(s, 8, s.len()));
    let p = Ping { message, sequence };
    proof {
        assert(spec_decode_ping(payload@).unwrap() =~= p@);
    }
    Some(p)
}

pub fn encode_pong(p: &Pong) -> (r: Vec<u8>)
    ensures
        r@ == spec_encode_pong(p@),
{
    let mut out = u64_to_le_bytes(p.sequence);
    let mut part = u64_to_le_bytes(p.total_pings);
    out.append(&mut part);
    append_bytes(&mut out, &p.message);
    proof {
        assert(out@ =~= spec_encode_pong(p@));
    }
    out
}

pub fn decode_pong(payload: &Vec<u8>) -> (r: Option<Pong>)
    ensures
        match r {
            Some(p) => spec_decode_pong(payload@) == Some(p@),
            None => spec_decode_pong(payload@) is None,
        },
{
    let s = payload.as_slice();
    if s.len() < 16 {
        return None;
    }
    let sequence = u64_from_le_bytes(slice_subrange(s, 0, 8));
    let total_pings = u64_from_le_bytes(slice_subrange(s, 8, 16));
    let message = slice_to_vec(slice_subrange(s, 16, s.len()));
    let p = Pong { message, sequence, total_pings };
    proof {
        assert(spec_decode_pong(payload@).unwrap() =~= p@);
    }
    Some(p)
}

/// The greeting every pong text starts with, before the echoed ping
/// text: the bytes of "Pong! Responding to: ".
pub open spec fn spec_pong_prefix() -> Seq<u8> {
    seq![80u8, 111, 110, 103, 33, 32, 82, 101, 115, 112, 111, 110, 100, 105, 110, 103, 32, 116, 111, 58, 32]
}

pub fn pong_prefix() -> (r: Vec<u8>)
    ensures
        r@ == spec_pong_prefix(),
{
    let mut v: Vec<u8> = Vec::new();
    v.push(80);
    v.push(111);
    v.push(110);
    v.push(103);
    v.push(33);
    v.push(32);
    v.push(82);
    v.push(101);
    v.push(115);
    v.push(112);
    v.push(111);
    v.push(110);
    v.push(100);
    v.push(105);
    v.push(110);
    v.push(103);
    v.push(32);
    v.push(116);
    v.push(111);
    v.push(58);
    v.push(32);
    proof {
        assert(v@ =~= spec_pong_prefix());
    }
    v
}

/// The server-side actor: counts the pings it has processed.
#[derive(Clone, Copy, PartialEq, Eq, Structural, Debug)]
pub struct PingActor {
    pub ping_count: u64,
}

/// The pong owed to one ping by an actor whose count was
/// `count_before`: the count steps by one (clamped at the largest
/// count), the sequence number is echoed, and the reply text is the
/// greeting followed by the ping's text.
pub open spec fn spec_pong_for(p: PingView, count_before: u64) -> PongView {
    PongView {
        message: spec_pong_prefix() + p.message,
        sequence: p.sequence,
        total_pings: spec_sat_add(count_before, 1),
    }
}

impl Handler for PingActor {
    open spec fn spec_handles(t: u128) -> bool {
        t == PING_MESSAGE_TYPE
    }

    open spec fn spec_valid(t: u128, payload: Seq<u8>) -> bool {
        spec_decode_ping(payload) is Some
    }

    open spec fn spec_step(pre: Self, t: u128, payload: Seq<u8>) -> (Self, Seq<u8>) {
        let p = spec_decode_ping(payload).unwrap();
        (
            PingActor { ping_count: spec_sat_add(pre.ping_count, 1) },
            spec_encode_pong(spec_pong_for(p, pre.ping_count)),
        )
    }

    fn handles(t: u128) -> (r: bool) {
        t == PING_MESSAGE_TYPE
    }

    fn valid(t: u128, payload: &Vec<u8>) -> (r: bool) {
        payload.len() >= 8
    }

    fn step(&mut self, t: u128, payload: &Vec<u8>) -> (reply: Vec<u8>) {
        let p = match decode_ping(payload) {
            Some(p) => p,
            None => Ping { message: Vec::new(), sequence: 0 },
        };
        self.ping_count = sat_add(self.ping_count, 1);
        let mut text = pong_prefix();
        crate::envelope::append_bytes(&mut text, &p.message);
        let pong = Pong {
            message: text,
            sequence: p.sequence,
            total_pings: self.ping_count,
        };
        let out = encode_pong(&pong);
        proof {
            assert(pong@ =~= spec_pong_for(
                spec_decode_ping(payload@).unwrap(),
                old(self).ping_count,
            ));
        }
        out
    }
}

/// An actor that processes `n` pings in a row answers the last one with
/// a total of its starting count plus `n`, clamped at the largest
/// count: the counter is a deterministic function of how many pings
/// were applied.
pub proof fn lemma_ping_count_accumulates(pre: PingActor, n: nat)
    ensures
        spec_count_after(pre, n).ping_count == if pre.ping_count + n > u64::MAX {
            u64::MAX as int
        } else {
            pre.ping_count + n
        },
    decreases n,
{
    if n > 0 {
        lemma_ping_count_accumulates(pre, (n - 1) as nat);
    }
}

/// The actor state after `n` pings.
pub open spec fn spec_count_after(pre: PingActor, n: nat) -> PingActor
    decreases n,
{
    if n == 0 {
        pre
    } else {
        PingActor { ping_count: spec_sat_add(spec_count_after(pre, (n - 1) as nat).ping_count, 1) }
    }
}

} // verus!
