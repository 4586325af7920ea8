//! The entity model: messages, statements, actions, enacted actions and
//! agreements. Pure data; each type has a mathematical view.

use vstd::prelude::*;

verus! {

/// Identifies a message. Equality is by value.
pub type MessageId = u64;

/// Identifies an agent. Equality is by value.
pub type AgentId = u64;

/// Names an asset inside an agent's store.
pub type Variable = u64;

/// Simulated time.
pub type Time = u64;

/// A fixed-width signature value.
pub type Signature = u128;

/// An opaque payload: the bytes of a policy, never interpreted here.
pub type Policy = Vec<u8>;

/// An opaque blob that an agent privately holds.
pub type AssetData = Vec<u8>;

/// Copies a byte string.
pub fn copy_bytes(bytes: &Vec<u8>) -> (out: Vec<u8>)
    ensures
        out@ == bytes@,
{
    let mut out: Vec<u8> = Vec::new();
    let mut i: usize = 0;
    while i < bytes.len()
        invariant
            i <= bytes.len(),
            out@ == bytes@.take(i as int),
        decreases bytes.len() - i,
    {
        out.push(bytes[i]);
        assert(bytes@.take(i + 1) =~= bytes@.take(i as int).push(bytes@[i as int]));
        i += 1;
    }
    assert(bytes@.take(bytes.len() as int) =~= bytes@);
    out
}

#[derive(Debug, Clone, PartialEq, Eq)]
pub struct Message {
    pub message_id: MessageId,
    pub payload: Policy,
}

pub struct MessageView {
    pub message_id: MessageId,
    pub payload: Seq<u8>,
}

impl View for Message {
    type V = MessageView;

    open spec fn view(&self) -> MessageView {
        MessageView { message_id: self.message_id, payload: self.payload@ }
    }
}

impl Message {
    /// A copy with the same identity and payload.
    pub fn duplicate(&self) -> (out: Message)
        ensures
            out@ == self@,
    {
        Message { message_id: self.message_id, payload: copy_bytes(&self.payload) }
    }
}

/// A message together with its author's signature over it.
#[derive(Debug, Clone, PartialEq, Eq)]
pub struct Statement {
    pub msg: Message,
    pub author_signature: Signature,
}

pub struct StatementView {
    pub msg: MessageView,
    pub author_signature: Signature,
}

impl View for Statement {
    type V = StatementView;

    open spec fn view(&self) -> StatementView {
        StatementView { msg: self.msg@, author_signature: self.author_signature }
    }
}

impl Statement {
    /// A copy with the same message and signature.
    pub fn duplicate(&self) -> (out: Statement)
        ensures
            out@ == self@,
    {
        Statement { msg: self.msg.duplicate(), author_signature: self.author_signature }
    }
}

/// A proposed state change, not yet signed.
#[derive(Debug, Clone, PartialEq, Eq)]
pub struct Action {
    pub basis: Message,
    pub enacts: Message,
    pub justification: Message,
    pub at: Time,
}

pub struct ActionView {
    pub basis: MessageView,
    pub enacts: MessageView,
    pub justification: MessageView,
    pub at: Time,
}

impl View for Action {
    type V = ActionView;

    open spec fn view(&self) -> ActionView {
        ActionView {
            basis: self.basis@,
            enacts: self.enacts@,
            justification: self.justification@,
            at: self.at,
        }
    }
}

impl Action {
    /// A copy with the same three messages and time.
    pub fn duplicate(&self) -> (out: Action)
        ensures
            out@ == self@,
    {
        Action {
            basis: self.basis.duplicate(),
            enacts: self.enacts.duplicate(),
            justification: self.justification.duplicate(),
            at: self.at,
        }
    }
}

/// An action signed by its actor.
#[derive(Debug, Clone, PartialEq, Eq)]
pub struct Enacted {
    pub action: Action,
    pub actor_signature: Signature,
}

pub struct EnactedView {
    pub action: ActionView,
    pub actor_signature: Signature,
}

impl View for Enacted {
    type V = EnactedView;

    open spec fn view(&self) -> EnactedView {
        EnactedView { action: self.action@, actor_signature: self.actor_signature }
    }
}

impl Enacted {
    /// A copy with the same action and signature.
    pub fn duplicate(&self) -> (out: Enacted)
        ensures
            out@ == self@,
    {
        Enacted { action: self.action.duplicate(), actor_signature: self.actor_signature }
    }
}

/// A message ratified by the consortium, binding from `in_effect`.
#[derive(Debug, Clone, PartialEq, Eq)]
pub struct Agreement {
    pub content: Message,
    pub in_effect: Time,
}

pub struct AgreementView {
    pub content: MessageView,
    pub in_effect: Time,
}

impl View for Agreement {
    type V = AgreementView;

    open spec fn view(&self) -> AgreementView {
        AgreementView { content: self.content@, in_effect: self.in_effect }
    }
}

impl Agreement {
    /// A copy with the same content and time.
    pub fn duplicate(&self) -> (out: Agreement)
        ensures
            out@ == self@,
    {
        Agreement { content: self.content.duplicate(), in_effect: self.in_effect }
    }
}

/// The views of a sequence of statements, in order.
pub open spec fn statement_views(s: Seq<Statement>) -> Seq<StatementView> {
    s.map_values(|x: Statement| x@)
}

/// The views of a sequence of enacted actions, in order.
pub open spec fn enacted_views(s: Seq<Enacted>) -> Seq<EnactedView> {
    s.map_values(|x: Enacted| x@)
}

/// The views of a sequence of agreements, in order.
pub open spec fn agreement_views(s: Seq<Agreement>) -> Seq<AgreementView> {
    s.map_values(|x: Agreement| x@)
}

} // verus!
