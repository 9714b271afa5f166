//! The actor runtime: local actors, mailboxes, sequential dispatch.
//!
//! A process spawns actors, registers each under a locally unique name,
//! and routes every inbound request envelope into the mailbox of the
//! actor the envelope targets.  Each actor processes its mailbox
//! strictly one envelope at a time with exclusive access to its private
//! state, so the state after a batch is a deterministic fold of the
//! handler over the mailbox order, and each envelope earns exactly one
//! reply: the handler's answer, or an error reply — never a silent drop
//! — when no actor holds the target name, the message type is not
//! handled, or the payload does not parse.

use vstd::prelude::*;
use crate::envelope::{EnvelopeView, MessageEnvelope, MsgKind};
use crate::ids::{bytes_eq, ActorId, ActorIdView, PeerId};

verus! {

/// Error codes carried by the payload of an error reply.
pub const ERR_UNKNOWN_ACTOR: u8 = 1;

pub const ERR_UNHANDLED_MESSAGE_TYPE: u8 = 2;

pub const ERR_INVALID_PAYLOAD: u8 = 3;

pub const ERR_ACTOR_STOPPED: u8 = 4;

/// What an actor's owner implements: which message types the actor
/// accepts, which payloads of those types parse, and how the state
/// steps and replies on one message.  The exec methods are bound to
/// the spec functions, so everything the runtime does with a handler
/// is determined by its mathematical description.
pub trait Handler: Sized {
    spec fn spec_handles(t: u128) -> bool;

    spec fn spec_valid(t: u128, payload: Seq<u8>) -> bool;

    spec fn spec_step(pre: Self, t: u128, payload: Seq<u8>) -> (Self, Seq<u8>);

    fn handles(t: u128) -> (r: bool)
        ensures
            r == Self::spec_handles(t),
    ;

    fn valid(t: u128, payload: &Vec<u8>) -> (r: bool)
        ensures
            r == Self::spec_valid(t, payload@),
    ;

    fn step(&mut self, t: u128, payload: &Vec<u8>) -> (reply: Vec<u8>)
        requires
            Self::spec_handles(t),
            Self::spec_valid(t, payload@),
        ensures
            *final(self) == Self::spec_step(*old(self), t, payload@).0,
            reply@ == Self::spec_step(*old(self), t, payload@).1,
    ;
}

/// One envelope as the runtime receives it from the transport: the
/// envelope plus the peer it arrived from, which is where the reply
/// goes.
pub struct Inbound {
    pub envelope: MessageEnvelope,
    pub source: PeerId,
}

/// Mathematical model of an inbound message.
#[verifier::ext_equal]
pub struct InboundView {
    pub envelope: EnvelopeView,
    pub source: u64,
}

impl View for Inbound {
    type V = InboundView;

    open spec fn view(&self) -> InboundView {
        InboundView { envelope: self.envelope@, source: self.source.id }
    }
}

/// The reply envelope for an error, addressed back to the source peer
/// and carrying the error code as its payload.
pub open spec fn spec_error_reply(env: EnvelopeView, source: u64, code: u8) -> EnvelopeView {
    EnvelopeView {
        correlation_id: env.correlation_id,
        target: ActorIdView { peer: source, name: Seq::empty() },
        message_type: env.message_type,
        kind: MsgKind::Error,
        payload: seq![code],
    }
}

/// The reply one inbound message earns from an actor in state `pre`:
/// the handler's reply for a handled, well-formed request, an error
/// reply otherwise.
pub open spec fn spec_reply_env<H: Handler>(inb: InboundView, pre: H) -> EnvelopeView {
    let t = inb.envelope.message_type;
    if !H::spec_handles(t) {
        spec_error_reply(inb.envelope, inb.source, ERR_UNHANDLED_MESSAGE_TYPE)
    } else if !H::spec_valid(t, inb.envelope.payload) {
        spec_error_reply(inb.envelope, inb.source, ERR_INVALID_PAYLOAD)
    } else {
        EnvelopeView {
            correlation_id: inb.envelope.correlation_id,
            target: ActorIdView { peer: inb.source, name: Seq::empty() },
            message_type: t,
            kind: MsgKind::Reply,
            payload: H::spec_step(pre, t, inb.envelope.payload).1,
        }
    }
}

/// The actor state after one inbound message: only a handled,
/// well-formed request moves the state.
pub open spec fn spec_post_state<H: Handler>(inb: InboundView, pre: H) -> H {
    let t = inb.envelope.message_type;
    if H::spec_handles(t) && H::spec_valid(t, inb.envelope.payload) {
        H::spec_step(pre, t, inb.envelope.payload).0
    } else {
        pre
    }
}

/// The sequential processing of a whole mailbox: the state folds over
/// the messages in order, and each message contributes one reply.
pub open spec fn spec_run<H: Handler>(pre: H, msgs: Seq<InboundView>) -> (H, Seq<EnvelopeView>)
    decreases msgs.len(),
{
    if msgs.len() == 0 {
        (pre, Seq::empty())
    } else {
        let first_reply = spec_reply_env(msgs[0], pre);
        let rest = spec_run(spec_post_state(msgs[0], pre), msgs.drop_first());
        (rest.0, seq![first_reply] + rest.1)
    }
}

/// Processing a mailbox in batches equals processing it whole: the
/// final state and the replies depend only on the concatenated mailbox
/// order, however arrivals were interleaved between batches.
pub proof fn lemma_run_append<H: Handler>(pre: H, a: Seq<InboundView>, b: Seq<InboundView>)
    ensures
        spec_run(pre, a + b).0 == spec_run(spec_run(pre, a).0, b).0,
        spec_run(pre, a + b).1 == spec_run(pre, a).1 + spec_run(spec_run(pre, a).0, b).1,
    decreases a.len(),
{
    if a.len() == 0 {
        assert(a + b =~= b);
        assert(spec_run(pre, a).1 + spec_run(spec_run(pre, a).0, b).1 =~= spec_run(pre, b).1);
    } else {
        assert((a + b)[0] == a[0]);
        assert((a + b).drop_first() =~= a.drop_first() + b);
        let pre1 = spec_post_state(a[0], pre);
        lemma_run_append(pre1, a.drop_first(), b);
        assert(seq![spec_reply_env(a[0], pre)] + (spec_run(pre1, a.drop_first()).1 + spec_run(
            spec_run(pre, a).0,
            b,
        ).1) =~= spec_run(pre, a).1 + spec_run(spec_run(pre, a).0, b).1);
    }
}

struct ActorCell<H> {
    name: Option<Vec<u8>>,
    state: H,
    mailbox: Vec<Inbound>,
}

/// Mathematical model of one local actor.
#[verifier::ext_equal]
pub struct ActorModel<H> {
    pub name: Option<Seq<u8>>,
    pub state: H,
    pub mailbox: Seq<InboundView>,
}

impl<H> ActorCell<H> {
    spec fn cell_view(&self) -> ActorModel<H> {
        ActorModel {
            name: match self.name {
                Some(v) => Some(v@),
                None => None,
            },
            state: self.state,
            mailbox: self.mailbox@.map_values(|i: Inbound| i@),
        }
    }
}

/// The error replies owed when an actor stops: one per envelope still
/// in its mailbox, each addressed back to that envelope's sender.
pub open spec fn spec_drain_replies(msgs: Seq<InboundView>) -> Seq<EnvelopeView> {
    msgs.map_values(
        |m: InboundView| spec_error_reply(m.envelope, m.source, ERR_ACTOR_STOPPED),
    )
}

/// The index of the actor registered under `name`, if any.
pub open spec fn spec_find<H>(s: Seq<ActorModel<H>>, name: Seq<u8>) -> Option<int> {
    if exists|j: int| 0 <= j < s.len() && s[j].name == Some(name) {
        Some(choose|j: int| 0 <= j < s.len() && s[j].name == Some(name))
    } else {
        None
    }
}

/// Why a registration was refused.
#[derive(Clone, Copy, PartialEq, Eq, Structural, Debug)]
pub enum RegisterError {
    NameAlreadyTaken,
}

/// This process's actors, modelled as the sequence of their states,
/// names and mailboxes.
pub struct Runtime<H> {
    local_peer: PeerId,
    actors: Vec<ActorCell<H>>,
}

impl<H> View for Runtime<H> {
    type V = Seq<ActorModel<H>>;

    closed spec fn view(&self) -> Seq<ActorModel<H>> {
        self.actors@.map_values(|c: ActorCell<H>| c.cell_view())
    }
}

impl<H: Handler> Runtime<H> {
    /// Registered names are unique within the process.
    pub open spec fn wf(&self) -> bool {
        forall|i: int, j: int|
            0 <= i < j < self@.len() && self@[i].name is Some ==> self@[i].name != self@[j].name
    }

    /// The peer that owns every actor spawned here.
    pub closed spec fn spec_peer(&self) -> u64 {
        self.local_peer.id
    }

    pub fn peer(&self) -> (r: PeerId)
        ensures
            r.id == self.spec_peer(),
    {
        self.local_peer
    }

    /// A runtime with no actors, owned by `local_peer`.
    pub fn new(local_peer: PeerId) -> (r: Runtime<H>)
        ensures
            r.wf(),
            r@ == Seq::<ActorModel<H>>::empty(),
            r.spec_peer() == local_peer.id,
    {
        let r = Runtime { local_peer, actors: Vec::new() };
        proof {
            assert(r@ =~= Seq::<ActorModel<H>>::empty());
        }
        r
    }

    /// Starts an actor with its initial state; the returned handle is
    /// its index.  The actor is anonymous — unreachable by envelopes —
    /// until registered.
    pub fn spawn(&mut self, initial: H) -> (h: usize)
        requires
            old(self).wf(),
        ensures
            final(self).wf(),
            final(self).spec_peer() == old(self).spec_peer(),
            h == old(self)@.len(),
            final(self)@ == old(self)@.push(
                ActorModel { name: None, state: initial, mailbox: Seq::empty() },
            ),
    {
        let h = self.actors.len();
        self.actors.push(ActorCell { name: None, state: initial, mailbox: Vec::new() });
        proof {
            assert(final(self)@ =~~= old(self)@.push(
                ActorModel { name: None, state: initial, mailbox: Seq::empty() },
            ));
        }
        h
    }

    fn find_named(&self, name: &Vec<u8>) -> (r: Option<usize>)
        ensures
            match r {
                Some(i) => i < self@.len() && self@[i as int].name == Some(name@),
                None => forall|j: int| 0 <= j < self@.len() ==> self@[j].name != Some(name@),
            },
    {
        let n: usize = self.actors.len();
        let mut i: usize = 0;
        while i < n
            invariant
                n == self.actors@.len(),
                self@.len() == n,
                i <= n,
                forall|j: int| 0 <= j < i ==> self@[j].name != Some(name@),
            decreases n - i,
        {
            let matches_name = match &self.actors[i].name {
                Some(v) => bytes_eq(v, name),
                None => false,
            };
            if matches_name {
                return Some(i);
            }
            i = i + 1;
        }
        None
    }

    /// Binds `name` to the actor behind handle `h`.  A name already
    /// registered in this process — by any actor — is refused.
    pub fn register(&mut self, h: usize, name: Vec<u8>) -> (r: Result<(), RegisterError>)
        requires
            old(self).wf(),
            h < old(self)@.len(),
        ensures
            final(self).wf(),
            final(self).spec_peer() == old(self).spec_peer(),
            match r {
                Ok(()) => (forall|j: int|
                    0 <= j < old(self)@.len() ==> old(self)@[j].name != Some(name@))
                    && final(self)@ == old(self)@.update(
                    h as int,
                    ActorModel {
                        name: Some(name@),
                        state: old(self)@[h as int].state,
                        mailbox: old(self)@[h as int].mailbox,
                    },
                ),
                Err(RegisterError::NameAlreadyTaken) => (exists|j: int|
                    0 <= j < old(self)@.len() && old(self)@[j].name == Some(name@)) && final(self)@
                    == old(self)@,
            },
    {
        match self.find_named(&name) {
            Some(_) => Err(RegisterError::NameAlreadyTaken),
            None => {
                let mut cell = self.actors.remove(h);
                cell.name = Some(name);
                self.actors.insert(h, cell);
                proof {
                    assert(final(self)@ =~= old(self)@.update(
                        h as int,
                        ActorModel {
                            name: Some(name@),
                            state: old(self)@[h as int].state,
                            mailbox: old(self)@[h as int].mailbox,
                        },
                    ));
                }
                Ok(())
            },
        }
    }

    /// Routes an inbound envelope to the mailbox of the actor the
    /// envelope targets — a mailbox is keyed by peer and name, so the
    /// envelope must name this runtime's own peer and a registered
    /// actor; the reply is produced later, when that actor processes
    /// it.  A mismatched peer or an unknown name — a stale or wrong
    /// record — earns an immediate error reply instead, never a silent
    /// drop.
    pub fn deliver(&mut self, env: MessageEnvelope, source: PeerId) -> (r: Option<MessageEnvelope>)
        requires
            old(self).wf(),
        ensures
            final(self).wf(),
            final(self).spec_peer() == old(self).spec_peer(),
            env@.target.peer == old(self).spec_peer() ==> match spec_find(
                old(self)@,
                env@.target.name,
            ) {
                Some(j) => r is None && final(self)@ == old(self)@.update(
                    j,
                    ActorModel {
                        name: old(self)@[j].name,
                        state: old(self)@[j].state,
                        mailbox: old(self)@[j].mailbox.push(
                            InboundView { envelope: env@, source: source.id },
                        ),
                    },
                ),
                None => (r matches Some(rep) && rep@ == spec_error_reply(
                    env@,
                    source.id,
                    ERR_UNKNOWN_ACTOR,
                )) && final(self)@ == old(self)@,
            },
            env@.target.peer != old(self).spec_peer() ==> (r matches Some(rep) && rep@
                == spec_error_reply(env@, source.id, ERR_UNKNOWN_ACTOR)) && final(self)@ == old(
                self,
            )@,
    {
        if env.target.peer.id != self.local_peer.id {
            let rep = MessageEnvelope {
                correlation_id: env.correlation_id,
                target: ActorId { peer: source, name: Vec::new() },
                message_type: env.message_type,
                kind: MsgKind::Error,
                payload: error_payload(ERR_UNKNOWN_ACTOR),
            };
            proof {
                assert(rep@ =~= spec_error_reply(env@, source.id, ERR_UNKNOWN_ACTOR));
            }
            return Some(rep);
        }
        match self.find_named(&env.target.name) {
            Some(i) => {
                proof {
                    assert(spec_find(old(self)@, env@.target.name) == Some(i as int)) by {
                        let j = choose|j: int|
                            0 <= j < old(self)@.len() && old(self)@[j].name == Some(
                                env@.target.name,
                            );
                        assert(old(self)@[i as int].name == Some(env@.target.name));
                        if j < i {
                            assert(old(self)@[j].name != old(self)@[i as int].name);
                        } else if i < j {
                            assert(old(self)@[i as int].name != old(self)@[j].name);
                        }
                    }
                }
                let ghost env_v = env@;
                let mut cell = self.actors.remove(i);
                cell.mailbox.push(Inbound { envelope: env, source });
                let ghost cv = cell.cell_view();
                self.actors.insert(i, cell);
                proof {
                    assert(cv.mailbox =~= old(self)@[i as int].mailbox.push(
                        InboundView { envelope: env_v, source: source.id },
                    ));
                    assert(final(self)@ =~= old(self)@.update(
                        i as int,
                        ActorModel {
                            name: old(self)@[i as int].name,
                            state: old(self)@[i as int].state,
                            mailbox: old(self)@[i as int].mailbox.push(
                                InboundView { envelope: env_v, source: source.id },
                            ),
                        },
                    ));
                }
                None
            },
            None => {
                let rep = MessageEnvelope {
                    correlation_id: env.correlation_id,
                    target: ActorId { peer: source, name: Vec::new() },
                    message_type: env.message_type,
                    kind: MsgKind::Error,
                    payload: error_payload(ERR_UNKNOWN_ACTOR),
                };
                proof {
                    assert(rep@ =~= spec_error_reply(env@, source.id, ERR_UNKNOWN_ACTOR));
                }
                Some(rep)
            },
        }
    }

    /// Processes the oldest envelope in actor `h`'s mailbox, if any:
    /// the state steps exactly as the handler's description says, and
    /// the returned envelope is the reply owed to the sender.
    pub fn process_next(&mut self, h: usize) -> (r: Option<MessageEnvelope>)
        requires
            old(self).wf(),
            h < old(self)@.len(),
        ensures
            final(self).wf(),
            final(self).spec_peer() == old(self).spec_peer(),
            match r {
                None => old(self)@[h as int].mailbox.len() == 0 && final(self)@ == old(self)@,
                Some(rep) => old(self)@[h as int].mailbox.len() > 0 && rep@ == spec_reply_env(
                    old(self)@[h as int].mailbox[0],
                    old(self)@[h as int].state,
                ) && final(self)@ == old(self)@.update(
                    h as int,
                    ActorModel {
                        name: old(self)@[h as int].name,
                        state: spec_post_state(
                            old(self)@[h as int].mailbox[0],
                            old(self)@[h as int].state,
                        ),
                        mailbox: old(self)@[h as int].mailbox.drop_first(),
                    },
                ),
            },
    {
        let mut cell = self.actors.remove(h);
        if cell.mailbox.len() == 0 {
            self.actors.insert(h, cell);
            proof {
                assert(final(self)@ =~= old(self)@);
            }
            return None;
        }
        let inb = cell.mailbox.remove(0);
        let ghost inb_v = inb@;
        let t = inb.envelope.message_type;
        let rep: MessageEnvelope = if !H::handles(t) {
            MessageEnvelope {
                correlation_id: inb.envelope.correlation_id,
                target: ActorId { peer: inb.source, name: Vec::new() },
                message_type: t,
                kind: MsgKind::Error,
                payload: error_payload(ERR_UNHANDLED_MESSAGE_TYPE),
            }
        } else if !H::valid(t, &inb.envelope.payload) {
            MessageEnvelope {
                correlation_id: inb.envelope.correlation_id,
                target: ActorId { peer: inb.source, name: Vec::new() },
                message_type: t,
                kind: MsgKind::Error,
                payload: error_payload(ERR_INVALID_PAYLOAD),
            }
        } else {
            let reply_payload = cell.state.step(t, &inb.envelope.payload);
            MessageEnvelope {
                correlation_id: inb.envelope.correlation_id,
                target: ActorId { peer: inb.source, name: Vec::new() },
                message_type: t,
                kind: MsgKind::Reply,
                payload: reply_payload,
            }
        };
        let ghost cv = cell.cell_view();
        self.actors.insert(h, cell);
        proof {
            assert(old(self)@[h as int].mailbox[0] == inb_v);
            assert(cv.mailbox =~= old(self)@[h as int].mailbox.drop_first());
            assert(rep@ =~= spec_reply_env(inb_v, old(self)@[h as int].state));
            assert(final(self)@ =~= old(self)@.update(
                h as int,
                ActorModel {
                    name: old(self)@[h as int].name,
                    state: spec_post_state(inb_v, old(self)@[h as int].state),
                    mailbox: old(self)@[h as int].mailbox.drop_first(),
                },
            ));
        }
        Some(rep)
    }

    /// Drains actor `h`'s mailbox in order: the final state is the fold
    /// of the handler over the whole mailbox, and the replies come back
    /// one per envelope, in mailbox order.
    pub fn process_all(&mut self, h: usize) -> (r: Vec<MessageEnvelope>)
        requires
            old(self).wf(),
            h < old(self)@.len(),
        ensures
            final(self).wf(),
            final(self).spec_peer() == old(self).spec_peer(),
            final(self)@ == old(self)@.update(
                h as int,
                ActorModel {
                    name: old(self)@[h as int].name,
                    state: spec_run(old(self)@[h as int].state, old(self)@[h as int].mailbox).0,
                    mailbox: Seq::empty(),
                },
            ),
            r@.map_values(|e: MessageEnvelope| e@) == spec_run(
                old(self)@[h as int].state,
                old(self)@[h as int].mailbox,
            ).1,
    {
        let ghost all0 = self@;
        let ghost st0 = all0[h as int].state;
        let ghost mb0 = all0[h as int].mailbox;
        let mut out: Vec<MessageEnvelope> = Vec::new();
        let mut remaining: usize = self.mailbox_len(h);
        while remaining > 0
            invariant
                self.wf(),
                self.spec_peer() == old(self).spec_peer(),
                h < self@.len(),
                self@.len() == all0.len(),
                self@[h as int].name == all0[h as int].name,
                remaining == self@[h as int].mailbox.len(),
                forall|j: int| 0 <= j < self@.len() && j != h ==> self@[j] == all0[j],
                spec_run(st0, mb0).0 == spec_run(self@[h as int].state, self@[h as int].mailbox).0,
                spec_run(st0, mb0).1 =~= out@.map_values(|e: MessageEnvelope| e@) + spec_run(
                    self@[h as int].state,
                    self@[h as int].mailbox,
                ).1,
            decreases remaining,
        {
            let ghost pre_state = self@[h as int].state;
            let ghost pre_mb = self@[h as int].mailbox;
            match self.process_next(h) {
                Some(rep) => {
                    let ghost o0 = out@;
                    out.push(rep);
                    proof {
                        let r0 = spec_reply_env(pre_mb[0], pre_state);
                        let rest1 = spec_run(
                            spec_post_state(pre_mb[0], pre_state),
                            pre_mb.drop_first(),
                        ).1;
                        assert(out@.map_values(|e: MessageEnvelope| e@) =~= o0.map_values(
                            |e: MessageEnvelope| e@,
                        ).push(rep@));
                        assert(seq![r0] + rest1 =~= spec_run(pre_state, pre_mb).1);
                        assert(o0.map_values(|e: MessageEnvelope| e@) + (seq![r0] + rest1)
                            =~= o0.map_values(|e: MessageEnvelope| e@).push(r0) + rest1);
                    }
                },
                None => {
                    proof {
                        assert(false);
                    }
                },
            }
            remaining = remaining - 1;
        }
        proof {
            assert(self@[h as int].mailbox =~= Seq::<InboundView>::empty());
            assert(self@ =~~= all0.update(
                h as int,
                ActorModel {
                    name: all0[h as int].name,
                    state: spec_run(st0, mb0).0,
                    mailbox: Seq::empty(),
                },
            ));
            assert(out@.map_values(|e: MessageEnvelope| e@) + spec_run(
                self@[h as int].state,
                self@[h as int].mailbox,
            ).1 =~= out@.map_values(|e: MessageEnvelope| e@));
            assert(out@.map_values(|e: MessageEnvelope| e@) =~= spec_run(st0, mb0).1);
        }
        out
    }

    /// Stops the actor behind handle `h`: its name is released — so the
    /// owner can free it in the discovery registry too — and its
    /// mailbox is discarded, with an error reply to every outstanding
    /// sender rather than a silent drop.  The stopped slot keeps its
    /// last state and handles of other actors stay valid.
    pub fn stop(&mut self, h: usize) -> (r: Vec<MessageEnvelope>)
        requires
            old(self).wf(),
            h < old(self)@.len(),
        ensures
            final(self).wf(),
            final(self).spec_peer() == old(self).spec_peer(),
            final(self)@ == old(self)@.update(
                h as int,
                ActorModel {
                    name: None,
                    state: old(self)@[h as int].state,
                    mailbox: Seq::empty(),
                },
            ),
            r@.map_values(|e: MessageEnvelope| e@) == spec_drain_replies(
                old(self)@[h as int].mailbox,
            ),
    {
        let mut cell = self.actors.remove(h);
        let ghost mb0 = cell.mailbox@.map_values(|i: Inbound| i@);
        let mut out: Vec<MessageEnvelope> = Vec::new();
        let n: usize = cell.mailbox.len();
        let mut i: usize = 0;
        while i < n
            invariant
                n == cell.mailbox@.len(),
                mb0 == cell.mailbox@.map_values(|i: Inbound| i@),
                i <= n,
                out@.len() == i,
                forall|j: int|
                    0 <= j < i ==> out@[j]@ == spec_error_reply(
                        mb0[j].envelope,
                        mb0[j].source,
                        ERR_ACTOR_STOPPED,
                    ),
            decreases n - i,
        {
            let inb = &cell.mailbox[i];
            let rep = MessageEnvelope {
                correlation_id: inb.envelope.correlation_id,
                target: ActorId { peer: inb.source, name: Vec::new() },
                message_type: inb.envelope.message_type,
                kind: MsgKind::Error,
                payload: error_payload(ERR_ACTOR_STOPPED),
            };
            proof {
                assert(rep@ =~= spec_error_reply(mb0[i as int].envelope, mb0[i as int].source,
                    ERR_ACTOR_STOPPED));
            }
            out.push(rep);
            i = i + 1;
        }
        cell.name = None;
        cell.mailbox.clear();
        let ghost cv = cell.cell_view();
        self.actors.insert(h, cell);
        proof {
            assert(cv.mailbox =~= Seq::<InboundView>::empty());
            assert(final(self)@ =~~= old(self)@.update(
                h as int,
                ActorModel {
                    name: None,
                    state: old(self)@[h as int].state,
                    mailbox: Seq::empty(),
                },
            ));
            assert(out@.map_values(|e: MessageEnvelope| e@) =~= spec_drain_replies(
                old(self)@[h as int].mailbox,
            ));
        }
        out
    }

    fn mailbox_len(&self, h: usize) -> (r: usize)
        requires
            h < self@.len(),
        ensures
            r == self@[h as int].mailbox.len(),
    {
        self.actors[h].mailbox.len()
    }
}

fn error_payload(code: u8) -> (r: Vec<u8>)
    ensures
        r@ == seq![code],
{
    let mut v: Vec<u8> = Vec::new();
    v.push(code);
    proof {
        assert(v@ =~= seq![code]);
    }
    v
}

} // verus!
