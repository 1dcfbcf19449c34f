//! Messages exchanged between the coordinator, its clients and its
//! participants.

use vstd::prelude::*;

verus! {

/// Kinds of protocol messages.
#[derive(Clone, Copy, Debug, PartialEq, Eq, Structural)]
pub enum MessageType {
    /// A client asks for a transaction.
    ClientRequest,
    /// The coordinator proposes work to the participants.
    CoordinatorPropose,
    /// A participant votes to commit in phase one.
    ParticipantVoteCommit,
    /// A participant votes to abort in phase one.
    ParticipantVoteAbort,
    /// The coordinator aborts in phase two.
    CoordinatorAbort,
    /// The coordinator commits in phase two.
    CoordinatorCommit,
    /// The client learns that its transaction committed.
    ClientResultCommit,
    /// The client learns that its transaction aborted.
    ClientResultAbort,
    /// The coordinator tells a client or participant to exit.
    CoordinatorExit,
    /// The coordinator tells a client that it takes requests.
    ReadyToRecieve,
    /// A client has no more requests to send.
    NoMoreRequests,
}

/// The fate of a transaction request.
#[derive(Clone, Copy, Debug, PartialEq, Eq, Structural)]
pub enum RequestStatus {
    Committed,
    Aborted,
    Unknown,
}

/// A protocol message.
pub struct ProtocolMessage {
    pub mtype: MessageType,
    pub uid: u32,
    pub txid: String,
    pub senderid: String,
    pub opid: u32,
}

/// The mathematical value of a [`ProtocolMessage`].
#[verifier::ext_equal]
pub struct MessageView {
    pub mtype: MessageType,
    pub uid: u32,
    pub txid: Seq<char>,
    pub senderid: Seq<char>,
    pub opid: u32,
}

impl View for ProtocolMessage {
    type V = MessageView;

    open spec fn view(&self) -> MessageView {
        MessageView {
            mtype: self.mtype,
            uid: self.uid,
            txid: self.txid@,
            senderid: self.senderid@,
            opid: self.opid,
        }
    }
}

/// The uid that follows `uid`; the counter wraps around like an atomic
/// `fetch_add`.
pub open spec fn following_uid(uid: u32) -> u32 {
    if uid == u32::MAX {
        0
    } else {
        (uid + 1) as u32
    }
}

impl ProtocolMessage {
    /// Builds a message from all of its fields.
    pub fn instantiate(t: MessageType, u: u32, tid: String, sid: String, oid: u32) -> (m:
        ProtocolMessage)
        ensures
            m@ == (MessageView { mtype: t, uid: u, txid: tid@, senderid: sid@, opid: oid }),
    {
        ProtocolMessage { mtype: t, uid: u, txid: tid, senderid: sid, opid: oid }
    }

    /// A field-by-field copy of the message.
    pub fn duplicate(&self) -> (m: ProtocolMessage)
        ensures
            m@ == self@,
    {
        ProtocolMessage {
            mtype: self.mtype,
            uid: self.uid,
            txid: self.txid.clone(),
            senderid: self.senderid.clone(),
            opid: self.opid,
        }
    }
}

/// The source of message uids: every generated message takes the next one.
pub struct UidSource {
    next: u32,
}

impl View for UidSource {
    type V = u32;

    /// The uid that the next generated message gets.
    closed spec fn view(&self) -> u32 {
        self.next
    }
}

impl UidSource {
    /// A fresh source; the first message gets uid 1.
    pub fn new() -> (s: UidSource)
        ensures
            s@ == 1,
    {
        UidSource { next: 1 }
    }

    /// The uid that the next generated message gets.
    pub fn peek(&self) -> (u: u32)
        ensures
            u == self@,
    {
        self.next
    }

    /// Builds a message that takes the next uid.
    pub fn generate(&mut self, t: MessageType, tid: String, sid: String, oid: u32) -> (m:
        ProtocolMessage)
        ensures
            m@ == (MessageView { mtype: t, uid: old(self)@, txid: tid@, senderid: sid@, opid: oid }),
            final(self)@ == following_uid(old(self)@),
    {
        let u = self.next;
        self.next = if u == u32::MAX {
            0
        } else {
            u + 1
        };
        ProtocolMessage::instantiate(t, u, tid, sid, oid)
    }
}

} // verus!
