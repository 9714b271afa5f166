//! Message envelopes and the wire codec.
//!
//! An envelope carries one request, reply or error between peers: a
//! correlation id linking a reply to its request, the target actor, a
//! 128-bit message-type discriminator that both ends must agree on, and
//! the serialized payload.  The codec lays an envelope out as a byte
//! string and parses it back; decoding is exact, so encoding followed by
//! decoding returns the original envelope in all fields.  A decoder also
//! consults the local vocabulary of registered discriminators: an
//! envelope whose discriminator is unknown locally is a recoverable
//! `UnknownType` error, never a crash.

use vstd::prelude::*;
use vstd::bytes::{
    lemma_auto_spec_u128_to_from_le_bytes, lemma_auto_spec_u64_to_from_le_bytes,
    spec_u128_from_le_bytes, spec_u128_to_le_bytes, spec_u64_from_le_bytes, spec_u64_to_le_bytes,
    u128_from_le_bytes, u128_to_le_bytes, u64_from_le_bytes, u64_to_le_bytes,
};
use vstd::slice::{slice_subrange, slice_to_vec};
use crate::ids::{ActorId, ActorIdView};

verus! {

/// What an envelope carries: a request, the matching reply, or an error
/// reply signalled by the remote runtime.
#[derive(Clone, Copy, PartialEq, Eq, Structural, Debug)]
pub enum MsgKind {
    Request,
    Reply,
    Error,
}

/// One unit of communication between peers.
#[derive(Debug)]
pub struct MessageEnvelope {
    pub correlation_id: u64,
    pub target: ActorId,
    pub message_type: u128,
    pub kind: MsgKind,
    pub payload: Vec<u8>,
}

impl Clone for MessageEnvelope {
    fn clone(&self) -> (r: Self)
        ensures
            r@ == self@,
    {
        MessageEnvelope {
            correlation_id: self.correlation_id,
            target: self.target.clone(),
            message_type: self.message_type,
            kind: self.kind,
            payload: crate::ids::clone_bytes(&self.payload),
        }
    }
}

/// Mathematical model of a `MessageEnvelope`.
#[verifier::ext_equal]
pub struct EnvelopeView {
    pub correlation_id: u64,
    pub target: ActorIdView,
    pub message_type: u128,
    pub kind: MsgKind,
    pub payload: Seq<u8>,
}

impl View for MessageEnvelope {
    type V = EnvelopeView;

    open spec fn view(&self) -> EnvelopeView {
        EnvelopeView {
            correlation_id: self.correlation_id,
            target: self.target@,
            message_type: self.message_type,
            kind: self.kind,
            payload: self.payload@,
        }
    }
}

/// Why a byte string failed to decode.
#[derive(Clone, Copy, PartialEq, Eq, Structural, Debug)]
pub enum DecodeError {
    /// The bytes do not spell a well-formed envelope.
    MalformedEnvelope,
    /// The envelope is well formed but its discriminator is not
    /// registered in the local vocabulary.
    UnknownType,
}

/// The wire byte of each envelope kind.
pub open spec fn spec_kind_byte(k: MsgKind) -> u8 {
    match k {
        MsgKind::Request => 0,
        MsgKind::Reply => 1,
        MsgKind::Error => 2,
    }
}

/// The envelope kind a wire byte spells, if any.
pub open spec fn spec_kind_of_byte(b: u8) -> Option<MsgKind> {
    if b == 0 {
        Some(MsgKind::Request)
    } else if b == 1 {
        Some(MsgKind::Reply)
    } else if b == 2 {
        Some(MsgKind::Error)
    } else {
        None
    }
}

pub fn kind_to_byte(k: MsgKind) -> (b: u8)
    ensures
        b == spec_kind_byte(k),
{
    match k {
        MsgKind::Request => 0,
        MsgKind::Reply => 1,
        MsgKind::Error => 2,
    }
}

pub fn kind_of_byte(b: u8) -> (r: Option<MsgKind>)
    ensures
        r == spec_kind_of_byte(b),
{
    if b == 0 {
        Some(MsgKind::Request)
    } else if b == 1 {
        Some(MsgKind::Reply)
    } else if b == 2 {
        Some(MsgKind::Error)
    } else {
        None
    }
}

/// An envelope whose variable-length fields fit the wire's length words.
pub open spec fn wf_envelope(e: EnvelopeView) -> bool {
    &&& e.target.name.len() <= u64::MAX
    &&& e.payload.len() <= u64::MAX
}

/// The wire layout: correlation id, target peer, discriminator, kind
/// byte, then the length-prefixed target name and payload.
pub open spec fn spec_encode(e: EnvelopeView) -> Seq<u8> {
    spec_u64_to_le_bytes(e.correlation_id) + spec_u64_to_le_bytes(e.target.peer)
        + spec_u128_to_le_bytes(e.message_type) + seq![spec_kind_byte(e.kind)]
        + spec_u64_to_le_bytes(e.target.name.len() as u64) + e.target.name
        + spec_u64_to_le_bytes(e.payload.len() as u64) + e.payload
}

/// The envelope a byte string spells, if any.  Every byte is accounted
/// for: trailing bytes make the string malformed.
pub open spec fn spec_decode(s: Seq<u8>) -> Option<EnvelopeView> {
    if s.len() < 49 {
        None
    } else {
        let nlen = spec_u64_from_le_bytes(s.subrange(33, 41)) as int;
        if s.len() < 49 + nlen {
            None
        } else {
            let plen = spec_u64_from_le_bytes(s.subrange(41 + nlen, 49 + nlen)) as int;
            if s.len() != 49 + nlen + plen {
                None
            } else {
                match spec_kind_of_byte(s[32]) {
                    None => None,
                    Some(k) => Some(
                        EnvelopeView {
                            correlation_id: spec_u64_from_le_bytes(s.subrange(0, 8)),
                            target: ActorIdView {
                                peer: spec_u64_from_le_bytes(s.subrange(8, 16)),
                                name: s.subrange(41, 41 + nlen),
                            },
                            message_type: spec_u128_from_le_bytes(s.subrange(16, 32)),
                            kind: k,
                            payload: s.subrange(49 + nlen, s.len() as int),
                        },
                    ),
                }
            }
        }
    }
}

/// Decoding inverts encoding: a well-formed envelope comes back equal in
/// all fields.
pub proof fn lemma_decode_encode(e: EnvelopeView)
    requires
        wf_envelope(e),
    ensures
        spec_decode(spec_encode(e)) == Some(e),
{
    lemma_auto_spec_u64_to_from_le_bytes();
    lemma_auto_spec_u128_to_from_le_bytes();
    let s = spec_encode(e);
    let n = e.target.name.len() as int;
    let p = e.payload.len() as int;
    assert(s.len() == 49 + n + p);
    assert(s.subrange(0, 8) =~= spec_u64_to_le_bytes(e.correlation_id));
    assert(s.subrange(8, 16) =~= spec_u64_to_le_bytes(e.target.peer));
    assert(s.subrange(16, 32) =~= spec_u128_to_le_bytes(e.message_type));
    assert(s[32] == spec_kind_byte(e.kind));
    assert(s.subrange(33, 41) =~= spec_u64_to_le_bytes(e.target.name.len() as u64));
    assert(spec_u64_from_le_bytes(s.subrange(33, 41)) as int == n);
    assert(s.subrange(41, 41 + n) =~= e.target.name);
    assert(s.subrange(41 + n, 49 + n) =~= spec_u64_to_le_bytes(e.payload.len() as u64));
    assert(spec_u64_from_le_bytes(s.subrange(41 + n, 49 + n)) as int == p);
    assert(s.subrange(49 + n, s.len() as int) =~= e.payload);
    assert(spec_kind_of_byte(spec_kind_byte(e.kind)) == Some(e.kind));
    assert(spec_decode(s).unwrap() =~= e);
}

/// Appends the bytes of `src` to `dst`, in order.
pub fn append_bytes(dst: &mut Vec<u8>, src: &Vec<u8>)
    ensures
        final(dst)@ == old(dst)@ + src@,
{
    let n: usize = src.len();
    let mut i: usize = 0;
    while i < n
        invariant
            n == src.len(),
            i <= n,
            dst@ == old(dst)@ + src@.subrange(0, i as int),
        decreases n - i,
    {
        dst.push(src[i]);
        proof {
            assert(old(dst)@ + src@.subrange(0, i as int) + seq![src@[i as int]] =~= old(dst)@
                + src@.subrange(0, i + 1));
        }
        i = i + 1;
    }
    proof {
        assert(src@.subrange(0, n as int) =~= src@);
    }
}

/// Serializes an envelope for the wire.
pub fn encode_envelope(e: &MessageEnvelope) -> (r: Vec<u8>)
    ensures
        r@ == spec_encode(e@),
        wf_envelope(e@),
{
    proof {
        assert(usize::MAX <= u64::MAX);
    }
    let mut out = u64_to_le_bytes(e.correlation_id);
    let mut part = u64_to_le_bytes(e.target.peer.id);
    out.append(&mut part);
    let mut part2 = u128_to_le_bytes(e.message_type);
    out.append(&mut part2);
    out.push(kind_to_byte(e.kind));
    proof {
        assert(out@ =~= spec_u64_to_le_bytes(e.correlation_id)
            + spec_u64_to_le_bytes(e.target.peer.id) + spec_u128_to_le_bytes(e.message_type)
            + seq![spec_kind_byte(e.kind)]);
    }
    let mut part3 = u64_to_le_bytes(e.target.name.len() as u64);
    out.append(&mut part3);
    append_bytes(&mut out, &e.target.name);
    let mut part4 = u64_to_le_bytes(e.payload.len() as u64);
    out.append(&mut part4);
    append_bytes(&mut out, &e.payload);
    proof {
        assert(out@ =~= spec_encode(e@));
    }
    out
}

/// Parses a wire byte string against the local vocabulary.  The result
/// is exactly what `spec_decode` says the bytes spell: a malformed
/// string is rejected, a well-formed envelope with an unregistered
/// discriminator is an `UnknownType` error, and anything else decodes
/// to the envelope the bytes spell.
pub fn decode_envelope(bytes: &Vec<u8>, vocab: &Vocabulary) -> (r: Result<
    MessageEnvelope,
    DecodeError,
>)
    ensures
        match r {
            Ok(env) => spec_decode(bytes@) == Some(env@) && vocab.spec_knows(env.message_type),
            Err(DecodeError::MalformedEnvelope) => spec_decode(bytes@) is None,
            Err(DecodeError::UnknownType) => spec_decode(bytes@) matches Some(e)
                && !vocab.spec_knows(e.message_type),
        },
{
    let s = bytes.as_slice();
    let total: usize = s.len();
    if total < 49 {
        return Err(DecodeError::MalformedEnvelope);
    }
    let correlation_id = u64_from_le_bytes(slice_subrange(s, 0, 8));
    let peer = u64_from_le_bytes(slice_subrange(s, 8, 16));
    let message_type = u128_from_le_bytes(slice_subrange(s, 16, 32));
    let kind_byte = *vstd::slice::slice_index_get(s, 32);
    let nlen_w = u64_from_le_bytes(slice_subrange(s, 33, 41));
    if nlen_w > (total - 49) as u64 {
        return Err(DecodeError::MalformedEnvelope);
    }
    let nlen = nlen_w as usize;
    let name = slice_to_vec(slice_subrange(s, 41, 41 + nlen));
    let plen_w = u64_from_le_bytes(slice_subrange(s, 41 + nlen, 49 + nlen));
    if plen_w != (total - 49 - nlen) as u64 {
        return Err(DecodeError::MalformedEnvelope);
    }
    let payload = slice_to_vec(slice_subrange(s, 49 + nlen, total));
    let kind = match kind_of_byte(kind_byte) {
        Some(k) => k,
        None => {
            return Err(DecodeError::MalformedEnvelope);
        },
    };
    if !vocab.knows(message_type) {
        return Err(DecodeError::UnknownType);
    }
    let env = MessageEnvelope {
        correlation_id,
        target: ActorId { peer: crate::ids::PeerId { id: peer }, name },
        message_type,
        kind,
        payload,
    };
    proof {
        assert(spec_decode(bytes@).unwrap() =~= env@);
    }
    Ok(env)
}

/// The set of message-type discriminators this process can decode: the
/// local half of the wire-compatibility contract.  Two processes may
/// register only partially overlapping vocabularies.
pub struct Vocabulary {
    types: Vec<u128>,
}

impl Vocabulary {
    /// Whether the discriminator `t` is registered locally.
    pub closed spec fn spec_knows(&self, t: u128) -> bool {
        self.types@.contains(t)
    }

    /// A vocabulary with no registered message types.
    pub fn new() -> (r: Vocabulary)
        ensures
            forall|t: u128| !r.spec_knows(t),
    {
        Vocabulary { types: Vec::new() }
    }

    /// Registers the discriminator `t`; every other discriminator keeps
    /// its status.
    pub fn register_type(&mut self, t: u128)
        ensures
            final(self).spec_knows(t),
            forall|u: u128| u != t ==> final(self).spec_knows(u) == old(self).spec_knows(u),
    {
        if !self.knows(t) {
            self.types.push(t);
            proof {
                let s0 = old(self).types@;
                let s1 = self.types@;
                assert(s1[s1.len() - 1] == t);
                assert(s1.contains(t));
                assert forall|u: u128| u != t implies s1.contains(u) == s0.contains(u) by {
                    if s1.contains(u) {
                        let i = choose|i: int| 0 <= i < s1.len() && s1[i] == u;
                        assert(s0[i] == u);
                        assert(s0.contains(u));
                    }
                    if s0.contains(u) {
                        let i = choose|i: int| 0 <= i < s0.len() && s0[i] == u;
                        assert(s1[i] == u);
                        assert(s1.contains(u));
                    }
                }
            }
        }
    }

    pub fn knows(&self, t: u128) -> (r: bool)
        ensures
            r == self.spec_knows(t),
    {
        let n: usize = self.types.len();
        let mut i: usize = 0;
        while i < n
            invariant
                n == self.types.len(),
                i <= n,
                forall|j: int| 0 <= j < i ==> self.types@[j] != t,
            decreases n - i,
        {
            if self.types[i] == t {
                return true;
            }
            i = i + 1;
        }
        false
    }
}

} // verus!
