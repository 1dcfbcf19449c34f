//! The coordinator's operation log: every message that it records, in
//! order, each under the next sequence number.
//!
//! The log is kept in memory; the driver persists its entries.

use vstd::prelude::*;
use crate::message::{MessageType, MessageView, ProtocolMessage, UidSource, following_uid};

verus! {

pub struct OpLog {
    seqno: u32,
    path: String,
    entries: Vec<ProtocolMessage>,
}

/// The mathematical value of an [`OpLog`]: where it is kept and what it
/// holds. The sequence number of `entries[i]` is `i + 1`.
#[verifier::ext_equal]
pub struct OpLogView {
    pub path: Seq<char>,
    pub entries: Seq<MessageView>,
}

impl View for OpLog {
    type V = OpLogView;

    closed spec fn view(&self) -> OpLogView {
        OpLogView {
            path: self.path@,
            entries: self.entries@.map_values(|m: ProtocolMessage| m@),
        }
    }
}

impl OpLog {
    #[verifier::type_invariant]
    spec fn numbered(&self) -> bool {
        self.seqno == self.entries.len()
    }

    /// An empty log kept at `fpath`.
    pub fn new(fpath: String) -> (log: OpLog)
        ensures
            log@.path == fpath@,
            log@.entries == Seq::<MessageView>::empty(),
    {
        let log = OpLog { seqno: 0, path: fpath, entries: Vec::new() };
        assert(log@.entries =~= Seq::<MessageView>::empty());
        log
    }

    /// Records a message of type `t` that takes the next uid of `uids`.
    pub fn append(
        &mut self,
        uids: &mut UidSource,
        t: MessageType,
        tid: String,
        sender: String,
        op: u32,
    )
        requires
            old(self)@.entries.len() < u32::MAX,
        ensures
            final(self)@.path == old(self)@.path,
            final(self)@.entries == old(self)@.entries.push(
                MessageView { mtype: t, uid: old(uids)@, txid: tid@, senderid: sender@, opid: op },
            ),
            final(uids)@ == following_uid(old(uids)@),
    {
        proof {
            use_type_invariant(&*self);
        }
        let pm = uids.generate(t, tid, sender, op);
        let mut taken = OpLog { seqno: 0, path: String::new(), entries: Vec::new() };
        std::mem::swap(&mut taken, self);
        proof {
            use_type_invariant(&taken);
        }
        let OpLog { seqno, path, mut entries } = taken;
        entries.push(pm);
        *self = OpLog { seqno: seqno + 1, path, entries };
        proof {
            assert(self@.entries =~= old(self)@.entries.push(pm@));
        }
    }

    /// The sequence number of the last entry (0 when the log is empty).
    pub fn seqno(&self) -> (n: u32)
        ensures
            n == self@.entries.len(),
    {
        proof {
            use_type_invariant(self);
        }
        self.seqno
    }

    /// The number of entries.
    pub fn len(&self) -> (n: usize)
        ensures
            n == self@.entries.len(),
    {
        self.entries.len()
    }

    /// The entry at position `i` (sequence number `i + 1`).
    pub fn entry(&self, i: usize) -> (m: &ProtocolMessage)
        requires
            i < self@.entries.len(),
        ensures
            m@ == self@.entries[i as int],
    {
        &self.entries[i]
    }

    /// Where the log is kept.
    pub fn path(&self) -> (p: &String)
        ensures
            p@ == self@.path,
    {
        &self.path
    }
}

} // verus!
