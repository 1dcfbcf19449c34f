//! The executable 2PC coordinator.
//!
//! It keeps the channels of its peers under their names, and refines the
//! state machine of [`crate::protocol`]: each call of
//! [`Coordinator::step`] takes what came of the last piece of outside work
//! and hands back the next one.

use vstd::prelude::*;
use crate::message::{MessageType, ProtocolMessage, UidSource};
use crate::oplog::OpLog;
use crate::names::{client_name_string, greeting_txid_string, participant_name_string};
use crate::protocol::{
    Action, CoordinatorState, CoordinatorView, Outcome, Pc, abort_step, client_joined, commit_step,
    dispatch, exit_step, greet_step, initial, inv, missing, next, overflowed, participant_joined,
    propose_step, reply_step, request_poll, request_reply, send_step, to_top, vote_poll, vote_reply,
};
use crate::laws::{
    lemma_client_join_keeps_inv, lemma_initial_inv, lemma_next_keeps_inv,
    lemma_participant_join_keeps_inv,
};

verus! {

/// The two ends of the channels that link the coordinator to one peer.
pub struct Comms<S, R> {
    sender: S,
    receiver: R,
}

impl<S, R> Comms<S, R> {
    /// The sending end and the receiving end.
    pub closed spec fn ends(&self) -> (S, R) {
        (self.sender, self.receiver)
    }

    pub fn new(sender: S, receiver: R) -> (c: Comms<S, R>)
        ensures
            c.ends() == (sender, receiver),
    {
        Comms { sender, receiver }
    }

    /// The end on which the coordinator sends to the peer.
    pub fn sender(&self) -> (s: &S)
        ensures
            *s == self.ends().0,
    {
        &self.sender
    }

    /// The end on which the coordinator receives from the peer.
    pub fn receiver(&self) -> (r: &R)
        ensures
            *r == self.ends().1,
    {
        &self.receiver
    }
}

struct Peer<S, R> {
    name: String,
    comms: Comms<S, R>,
}

/// Peers by name; a name registered again replaces the earlier channels.
pub struct PeerTable<S, R> {
    peers: Vec<Peer<S, R>>,
    table: Ghost<Map<Seq<char>, (S, R)>>,
}

impl<S, R> View for PeerTable<S, R> {
    type V = Map<Seq<char>, (S, R)>;

    closed spec fn view(&self) -> Map<Seq<char>, (S, R)> {
        self.table@
    }
}

impl<S, R> PeerTable<S, R> {
    /// The entries hold distinct names and are exactly the table.
    pub closed spec fn wf(&self) -> bool {
        &&& self.table@.dom().finite()
        &&& forall|i: int, j: int|
            0 <= i < j < self.peers.len() ==> (#[trigger] self.peers[i]).name@
                != (#[trigger] self.peers[j]).name@
        &&& forall|i: int|
            0 <= i < self.peers.len() ==> #[trigger] self.table@.contains_key(self.peers[i].name@)
                && self.table@[self.peers[i].name@] == self.peers[i].comms.ends()
        &&& forall|k: Seq<char>|
            #[trigger] self.table@.contains_key(k) ==> exists|i: int|
                0 <= i < self.peers.len() && (#[trigger] self.peers[i]).name@ == k
    }

    /// An empty table.
    pub fn new() -> (t: PeerTable<S, R>)
        ensures
            t.wf(),
            t@ == Map::<Seq<char>, (S, R)>::empty(),
    {
        PeerTable { peers: Vec::new(), table: Ghost(Map::empty()) }
    }

    fn find(&self, name: &String) -> (r: Option<usize>)
        requires
            self.wf(),
        ensures
            match r {
                Some(i) => i < self.peers.len() && self.peers[i as int].name@ == name@,
                None => !self@.contains_key(name@),
            },
    {
        let mut i: usize = 0;
        while i < self.peers.len()
            invariant
                self.wf(),
                i <= self.peers.len(),
                forall|j: int| 0 <= j < i ==> (#[trigger] self.peers[j]).name@ != name@,
            decreases self.peers.len() - i,
        {
            if self.peers[i].name == *name {
                return Some(i);
            }
            i = i + 1;
        }
        None
    }

    /// Whether a peer is registered as `name`.
    pub fn contains(&self, name: &String) -> (b: bool)
        requires
            self.wf(),
        ensures
            b == self@.contains_key(name@),
    {
        match self.find(name) {
            Some(_) => true,
            None => false,
        }
    }

    /// The channels of the peer registered as `name`.
    pub fn get(&self, name: &String) -> (r: Option<&Comms<S, R>>)
        requires
            self.wf(),
        ensures
            match r {
                Some(c) => self@.contains_key(name@) && self@[name@] == c.ends(),
                None => !self@.contains_key(name@),
            },
    {
        match self.find(name) {
            Some(i) => {
                proof {
                    assert(self.table@.contains_key(self.peers[i as int].name@));
                }
                Some(&self.peers[i].comms)
            },
            None => None,
        }
    }

    /// Registers `comms` under `name`, replacing what was there.
    pub fn insert(&mut self, name: String, comms: Comms<S, R>)
        requires
            old(self).wf(),
        ensures
            final(self).wf(),
            final(self)@ == old(self)@.insert(name@, comms.ends()),
    {
        let ghost entry = comms.ends();
        let ghost key = name@;
        match self.find(&name) {
            Some(i) => {
                self.peers.set(i, Peer { name, comms });
                self.table = Ghost(self.table@.insert(key, entry));
                assert forall|j: int| 0 <= j < self.peers.len() implies #[trigger] self.table@.contains_key(
                    self.peers[j].name@,
                ) && self.table@[self.peers[j].name@] == self.peers[j].comms.ends() by {
                    if j != i {
                        assert(old(self).table@.contains_key(old(self).peers[j].name@));
                        assert(self.peers[j] == old(self).peers[j]);
                        assert(old(self).peers[j].name@ != old(self).peers[i as int].name@);
                    }
                }
                assert forall|a: int, b: int| 0 <= a < b < self.peers.len() implies (#[trigger] self.peers[a]).name@
                    != (#[trigger] self.peers[b]).name@ by {
                    assert(old(self).peers[a].name@ != old(self).peers[b].name@);
                }
                assert forall|k: Seq<char>| #[trigger] self.table@.contains_key(k) implies exists|
                    j: int,
                | 0 <= j < self.peers.len() && (#[trigger] self.peers[j]).name@ == k by {
                    if k != key {
                        let j = choose|j: int|
                            0 <= j < old(self).peers.len() && (#[trigger] old(self).peers[j]).name@
                                == k;
                        assert(self.peers[j] == old(self).peers[j]);
                    } else {
                        assert(self.peers[i as int].name@ == k);
                    }
                }
            },
            None => {
                self.peers.push(Peer { name, comms });
                self.table = Ghost(self.table@.insert(key, entry));
                let ghost n = old(self).peers.len() as int;
                assert forall|j: int| 0 <= j < self.peers.len() implies #[trigger] self.table@.contains_key(
                    self.peers[j].name@,
                ) && self.table@[self.peers[j].name@] == self.peers[j].comms.ends() by {
                    if j < n {
                        assert(old(self).table@.contains_key(old(self).peers[j].name@));
                        assert(self.peers[j] == old(self).peers[j]);
                    }
                }
                assert forall|a: int, b: int| 0 <= a < b < self.peers.len() implies (#[trigger] self.peers[a]).name@
                    != (#[trigger] self.peers[b]).name@ by {
                    if b < n {
                        assert(old(self).peers[a].name@ != old(self).peers[b].name@);
                    } else {
                        assert(old(self).table@.contains_key(old(self).peers[a].name@));
                        assert(self.peers[a] == old(self).peers[a]);
                    }
                }
                assert forall|k: Seq<char>| #[trigger] self.table@.contains_key(k) implies exists|
                    j: int,
                | 0 <= j < self.peers.len() && (#[trigger] self.peers[j]).name@ == k by {
                    if k != key {
                        let j = choose|j: int|
                            0 <= j < old(self).peers.len() && (#[trigger] old(self).peers[j]).name@
                                == k;
                        assert(self.peers[j] == old(self).peers[j]);
                    } else {
                        assert(self.peers[old(self).peers.len() as int].name@ == k);
                    }
                }
            },
        }
    }
}

/// The aggregate outcome of the transaction requests that a coordinator
/// handled.
pub struct StatusReport {
    pub committed: u32,
    pub aborted: u32,
    pub unknown: u32,
}

/// The 2PC coordinator.
pub struct Coordinator<S, R> {
    state: CoordinatorState,
    last_state: CoordinatorState,
    pc: Pc,
    cursor: u64,
    try_counter: u64,
    log: OpLog,
    uids: UidSource,
    client_comms: PeerTable<S, R>,
    num_clients: u32,
    participant_comms: PeerTable<S, R>,
    num_participants: u32,
    client_message: ProtocolMessage,
    participant_message: ProtocolMessage,
    num_voted_commit: u32,
    action: u32,
    successful_ops: u32,
    failed_ops: u32,
    timeout: u32,
    unknown_ops: u32,
    requests_taken: Ghost<nat>,
}

impl<S, R> View for Coordinator<S, R> {
    type V = CoordinatorView;

    closed spec fn view(&self) -> CoordinatorView {
        CoordinatorView {
            state: self.state,
            last_state: self.last_state,
            pc: self.pc,
            cursor: self.cursor,
            try_counter: self.try_counter,
            log_path: self.log@.path,
            log: self.log@.entries,
            next_uid: self.uids@,
            clients: self.client_comms@.dom(),
            num_clients: self.num_clients,
            participants: self.participant_comms@.dom(),
            num_participants: self.num_participants,
            client_message: self.client_message@,
            participant_message: self.participant_message@,
            num_voted_commit: self.num_voted_commit,
            action: self.action,
            successful_ops: self.successful_ops,
            failed_ops: self.failed_ops,
            timeout: self.timeout,
            unknown_ops: self.unknown_ops,
            requests_taken: self.requests_taken@,
        }
    }
}

impl<S, R> Coordinator<S, R> {
    /// The channels of the clients, by name.
    pub closed spec fn client_table(&self) -> Map<Seq<char>, (S, R)> {
        self.client_comms@
    }

    /// The channels of the participants, by name.
    pub closed spec fn participant_table(&self) -> Map<Seq<char>, (S, R)> {
        self.participant_comms@
    }

    /// The coordinator's invariant: its peer tables are well formed and its
    /// state satisfies [`inv`].
    pub closed spec fn wf(&self) -> bool {
        &&& self.client_comms.wf()
        &&& self.participant_comms.wf()
        &&& inv(self@)
    }

    /// A new coordinator, quiescent, with no peers, whose log is kept at
    /// `log_path`.
    pub fn new(log_path: String) -> (c: Coordinator<S, R>)
        ensures
            c.wf(),
            c@ == initial(log_path@, 1),
            c.client_table() == Map::<Seq<char>, (S, R)>::empty(),
            c.participant_table() == Map::<Seq<char>, (S, R)>::empty(),
    {
        proof {
            reveal_strlit("coord-init");
            lemma_initial_inv(log_path@, 1);
        }
        let c = Coordinator {
            state: CoordinatorState::Quiescent,
            last_state: CoordinatorState::Quiescent,
            pc: Pc::Top,
            cursor: 0,
            try_counter: 0,
            log: OpLog::new(log_path),
            uids: UidSource::new(),
            client_comms: PeerTable::new(),
            num_clients: 0,
            participant_comms: PeerTable::new(),
            num_participants: 0,
            client_message: ProtocolMessage::instantiate(
                MessageType::ReadyToRecieve,
                100,
                String::from_str("coord-init"),
                String::from_str("coord-init"),
                0,
            ),
            participant_message: ProtocolMessage::instantiate(
                MessageType::ReadyToRecieve,
                100,
                String::from_str("coord-init"),
                String::from_str("coord-init"),
                0,
            ),
            num_voted_commit: 0,
            action: 0,
            successful_ops: 0,
            failed_ops: 0,
            timeout: 0,
            unknown_ops: 0,
            requests_taken: Ghost(0),
        };
        assert(c@ =~= initial(log_path@, 1));
        c
    }

    /// Registers a participant under `name`, with the channels that link
    /// the coordinator to it. Only a quiescent coordinator takes new peers.
    pub fn participant_join(&mut self, name: &String, send: S, receive: R)
        requires
            old(self).wf(),
            old(self)@.state == CoordinatorState::Quiescent,
            old(self)@.num_participants < u32::MAX,
        ensures
            final(self).wf(),
            final(self)@ == participant_joined(old(self)@, name@),
            final(self).participant_table() == old(self).participant_table().insert(
                name@,
                (send, receive),
            ),
            final(self).participant_table().dom().finite(),
            final(self).participant_table().dom().len() == old(self).participant_table().dom().len()
                + if old(self).participant_table().contains_key(name@) {
                0int
            } else {
                1int
            },
            final(self).client_table() == old(self).client_table(),
    {
        proof {
            lemma_participant_join_keeps_inv(self@, name@);
        }
        self.num_participants = self.num_participants + 1;
        let com = Comms::new(send, receive);
        self.participant_comms.insert(name.clone(), com);
        assert(self@ =~= participant_joined(old(self)@, name@));
    }

    /// Registers a client under `name`, with the channels that link the
    /// coordinator to it. Only a quiescent coordinator takes new peers.
    pub fn client_join(&mut self, name: String, send: S, receive: R)
        requires
            old(self).wf(),
            old(self)@.state == CoordinatorState::Quiescent,
            old(self)@.num_clients < u32::MAX,
        ensures
            final(self).wf(),
            final(self)@ == client_joined(old(self)@, name@),
            final(self).client_table() == old(self).client_table().insert(name@, (send, receive)),
            final(self).client_table().dom().finite(),
            final(self).client_table().dom().len() == old(self).client_table().dom().len()
                + if old(self).client_table().contains_key(name@) {
                0int
            } else {
                1int
            },
            final(self).participant_table() == old(self).participant_table(),
    {
        proof {
            lemma_client_join_keeps_inv(self@, name@);
        }
        let ghost key = name@;
        self.num_clients = self.num_clients + 1;
        let com = Comms::new(send, receive);
        self.client_comms.insert(name, com);
        assert(self@ =~= client_joined(old(self)@, key));
    }

    /// The aggregate status of the requests taken so far: those committed,
    /// those aborted, and those whose decision the run never reached.
    pub fn report_status(&mut self) -> (r: StatusReport)
        ensures
            *final(self) == *old(self),
            r.committed == old(self)@.successful_ops,
            r.aborted == old(self)@.failed_ops,
            r.unknown == old(self)@.unknown_ops,
    {
        let successful_ops: u32 = self.successful_ops;
        let failed_ops: u32 = self.failed_ops;
        let unknown_ops: u32 = self.unknown_ops;
        StatusReport { committed: successful_ops, aborted: failed_ops, unknown: unknown_ops }
    }

    /// The peer tables of a well-formed coordinator are finite, hold the
    /// names of its state, and hold no more names than registrations.
    pub proof fn lemma_tables_finite(&self)
        requires
            self.wf(),
        ensures
            self.client_table().dom().finite(),
            self.participant_table().dom().finite(),
            self.client_table().dom() == self@.clients,
            self.participant_table().dom() == self@.participants,
            self.client_table().dom().len() <= self@.num_clients,
            self.participant_table().dom().len() <= self@.num_participants,
    {
    }

    /// The state of the protocol.
    pub fn state(&self) -> (s: CoordinatorState)
        ensures
            s == self@.state,
    {
        self.state
    }

    /// The number of registered clients.
    pub fn num_clients(&self) -> (n: u32)
        ensures
            n == self@.num_clients,
    {
        self.num_clients
    }

    /// The number of registered participants.
    pub fn num_participants(&self) -> (n: u32)
        ensures
            n == self@.num_participants,
    {
        self.num_participants
    }

    /// The operation log.
    pub fn log(&self) -> (l: &OpLog)
        ensures
            l@.path == self@.log_path,
            l@.entries == self@.log,
    {
        &self.log
    }

    /// The channels of the client registered as `name`.
    pub fn client_comms(&self, name: &String) -> (r: Option<&Comms<S, R>>)
        requires
            self.wf(),
        ensures
            match r {
                Some(c) => self.client_table().contains_key(name@) && self.client_table()[name@]
                    == c.ends(),
                None => !self.client_table().contains_key(name@),
            },
    {
        self.client_comms.get(name)
    }

    /// The channels of the participant registered as `name`.
    pub fn participant_comms(&self, name: &String) -> (r: Option<&Comms<S, R>>)
        requires
            self.wf(),
        ensures
            match r {
                Some(c) => self.participant_table().contains_key(name@)
                    && self.participant_table()[name@] == c.ends(),
                None => !self.participant_table().contains_key(name@),
            },
    {
        self.participant_comms.get(name)
    }
}

impl<S, R> Coordinator<S, R> {
    /// Both peer tables are well formed.
    closed spec fn peers_wf(&self) -> bool {
        self.client_comms.wf() && self.participant_comms.wf()
    }

    /// `self` and `other` hold the same peers.
    closed spec fn same_peers(&self, other: &Self) -> bool {
        self.client_comms == other.client_comms && self.participant_comms == other.participant_comms
    }

    fn halt_missing(&mut self, name: String) -> (a: Action)
        ensures
            (final(self)@, a@) == missing(old(self)@, name@),
            final(self).same_peers(old(self)),
    {
        self.pc = Pc::Halted;
        Action::MissingPeer { name }
    }

    fn halt_overflow(&mut self) -> (a: Action)
        ensures
            (final(self)@, a@) == overflowed(old(self)@),
            final(self).same_peers(old(self)),
    {
        self.pc = Pc::Halted;
        Action::CounterOverflow
    }

    fn go_top(&mut self, s: CoordinatorState) -> (a: Action)
        ensures
            (final(self)@, a@) == to_top(old(self)@, s),
            final(self).same_peers(old(self)),
    {
        self.state = s;
        self.pc = Pc::Top;
        Action::Proceed
    }

    fn greet(&mut self) -> (a: Action)
        requires
            old(self).peers_wf(),
        ensures
            (final(self)@, a@) == greet_step(old(self)@),
            final(self).same_peers(old(self)),
    {
        if self.cursor < self.num_clients as u64 {
            let name = client_name_string(self.cursor);
            if self.client_comms.contains(&name) {
                let msg = self.uids.generate(
                    MessageType::ReadyToRecieve,
                    greeting_txid_string(self.cursor),
                    String::from_str("coordinator"),
                    self.num_clients,
                );
                self.cursor = self.cursor + 1;
                Action::SendToClient { name, msg }
            } else {
                self.halt_missing(name)
            }
        } else {
            self.state = CoordinatorState::TakeRequests;
            self.pc = Pc::Top;
            Action::Sleep { millis: 50 }
        }
    }

    fn propose(&mut self) -> (a: Action)
        requires
            old(self).peers_wf(),
        ensures
            (final(self)@, a@) == propose_step(old(self)@),
            final(self).same_peers(old(self)),
    {
        if self.cursor < self.num_participants as u64 {
            let name = participant_name_string(self.cursor);
            if self.participant_comms.contains(&name) {
                let msg = self.client_message.duplicate();
                self.cursor = self.cursor + 1;
                Action::SendToParticipant { name, msg }
            } else {
                self.halt_missing(name)
            }
        } else {
            self.go_top(CoordinatorState::ProposalSent)
        }
    }

    fn abort_round(&mut self) -> (a: Action)
        requires
            old(self).peers_wf(),
        ensures
            (final(self)@, a@) == abort_step(old(self)@),
            final(self).same_peers(old(self)),
    {
        if self.cursor < self.num_participants as u64 {
            let name = participant_name_string(self.cursor);
            if self.participant_comms.contains(&name) {
                let sid = if self.timeout == 1 {
                    String::from_str("timeout")
                } else {
                    String::from_str("")
                };
                let msg = self.uids.generate(
                    MessageType::CoordinatorAbort,
                    String::from_str(""),
                    sid,
                    0,
                );
                self.cursor = self.cursor + 1;
                Action::SendToParticipant { name, msg }
            } else {
                self.halt_missing(name)
            }
        } else if self.failed_ops == u32::MAX || self.log.seqno() == u32::MAX {
            self.halt_overflow()
        } else {
            self.failed_ops = self.failed_ops + 1;
            self.log.append(
                &mut self.uids,
                MessageType::CoordinatorAbort,
                self.client_message.txid.clone(),
                self.client_message.senderid.clone(),
                self.client_message.opid,
            );
            self.state = CoordinatorState::SentGlobalDecision;
            self.last_state = CoordinatorState::ReceivedVotesAbort;
            self.pc = Pc::Top;
            Action::Proceed
        }
    }

    fn commit_round(&mut self) -> (a: Action)
        requires
            old(self).peers_wf(),
        ensures
            (final(self)@, a@) == commit_step(old(self)@),
            final(self).same_peers(old(self)),
    {
        if self.cursor < self.num_participants as u64 {
            let name = participant_name_string(self.cursor);
            if self.participant_comms.contains(&name) {
                let msg = self.uids.generate(
                    MessageType::CoordinatorCommit,
                    String::from_str(""),
                    String::from_str(""),
                    0,
                );
                self.cursor = self.cursor + 1;
                Action::SendToParticipant { name, msg }
            } else {
                self.halt_missing(name)
            }
        } else if self.successful_ops == u32::MAX || self.log.seqno() == u32::MAX {
            self.halt_overflow()
        } else {
            self.successful_ops = self.successful_ops + 1;
            self.log.append(
                &mut self.uids,
                MessageType::CoordinatorCommit,
                self.client_message.txid.clone(),
                self.client_message.senderid.clone(),
                self.client_message.opid,
            );
            self.state = CoordinatorState::SentGlobalDecision;
            self.last_state = CoordinatorState::ReceivedVotesCommit;
            self.pc = Pc::Top;
            Action::Proceed
        }
    }

    fn exit_peers(&mut self) -> (a: Action)
        requires
            old(self).peers_wf(),
        ensures
            (final(self)@, a@) == exit_step(old(self)@),
            final(self).same_peers(old(self)),
    {
        if self.cursor < self.num_participants as u64 {
            let name = participant_name_string(self.cursor);
            if self.participant_comms.contains(&name) {
                let msg = self.uids.generate(
                    MessageType::CoordinatorExit,
                    String::from_str(""),
                    String::from_str(""),
                    0,
                );
                self.cursor = self.cursor + 1;
                Action::SendToParticipant { name, msg }
            } else {
                self.halt_missing(name)
            }
        } else if self.cursor < self.num_participants as u64 + self.num_clients as u64 {
            let name = client_name_string(self.cursor - self.num_participants as u64);
            if self.client_comms.contains(&name) {
                let msg = self.uids.generate(
                    MessageType::CoordinatorExit,
                    String::from_str(""),
                    String::from_str(""),
                    0,
                );
                self.cursor = self.cursor + 1;
                Action::SendToClient { name, msg }
            } else {
                self.halt_missing(name)
            }
        } else {
            self.pc = Pc::Exiting;
            Action::Sleep { millis: 1000 }
        }
    }

    fn send_next(&mut self) -> (a: Action)
        requires
            old(self).peers_wf(),
        ensures
            (final(self)@, a@) == send_step(old(self)@),
            final(self).same_peers(old(self)),
    {
        match self.state {
            CoordinatorState::Quiescent => self.greet(),
            CoordinatorState::ReceivedRequest => self.propose(),
            CoordinatorState::ReceivedVotesAbort => self.abort_round(),
            CoordinatorState::ReceivedVotesCommit => self.commit_round(),
            CoordinatorState::Done => self.exit_peers(),
            _ => {
                let s = self.state;
                self.go_top(s)
            },
        }
    }

    fn poll_for_request(&mut self) -> (a: Action)
        requires
            old(self).peers_wf(),
        ensures
            (final(self)@, a@) == request_poll(old(self)@),
            final(self).same_peers(old(self)),
    {
        if self.cursor == self.num_clients as u64 {
            self.go_top(CoordinatorState::Done)
        } else {
            let name = client_name_string(self.cursor);
            if self.client_comms.contains(&name) {
                self.pc = Pc::AwaitReply;
                Action::PollClient { name }
            } else {
                self.halt_missing(name)
            }
        }
    }

    fn take_request_reply(&mut self, input: Outcome) -> (a: Action)
        requires
            old(self).peers_wf(),
            inv(old(self)@),
            old(self)@.state == CoordinatorState::TakeRequests,
            old(self)@.pc == Pc::AwaitReply,
        ensures
            (final(self)@, a@) == request_reply(old(self)@, input@),
            final(self).same_peers(old(self)),
    {
        match input {
            Outcome::Received(msg) => {
                self.client_message = msg;
                if self.client_message.mtype == MessageType::ClientRequest {
                    self.requests_taken = Ghost(self.requests_taken@ + 1);
                    self.go_top(CoordinatorState::ReceivedRequest)
                } else if self.client_message.mtype == MessageType::NoMoreRequests {
                    self.cursor = self.cursor + 1;
                    self.poll_for_request()
                } else {
                    self.poll_for_request()
                }
            },
            _ => {
                self.try_counter = self.try_counter + 1;
                if self.try_counter > 3 {
                    self.cursor = self.cursor + 1;
                }
                self.pc = Pc::Polling;
                Action::Sleep { millis: 20 }
            },
        }
    }

    fn poll_for_vote(&mut self) -> (a: Action)
        requires
            old(self).peers_wf(),
        ensures
            (final(self)@, a@) == vote_poll(old(self)@),
            final(self).same_peers(old(self)),
    {
        let name = participant_name_string(self.cursor);
        if self.participant_comms.contains(&name) {
            self.pc = Pc::AwaitReply;
            Action::PollParticipant { name }
        } else {
            self.halt_missing(name)
        }
    }

    fn take_vote_reply(&mut self, input: Outcome) -> (a: Action)
        requires
            old(self).peers_wf(),
            inv(old(self)@),
            old(self)@.state == CoordinatorState::ProposalSent,
            old(self)@.pc == Pc::AwaitReply,
        ensures
            (final(self)@, a@) == vote_reply(old(self)@, input@),
            final(self).same_peers(old(self)),
    {
        match input {
            Outcome::Received(msg) => {
                if self.log.seqno() == u32::MAX {
                    self.halt_overflow()
                } else {
                    self.participant_message = msg;
                    self.cursor = self.cursor + 1;
                    self.log.append(
                        &mut self.uids,
                        self.participant_message.mtype,
                        self.participant_message.txid.clone(),
                        self.participant_message.senderid.clone(),
                        self.participant_message.opid,
                    );
                    if self.participant_message.mtype == MessageType::ParticipantVoteCommit {
                        self.num_voted_commit = self.num_voted_commit + 1;
                    }
                    if self.num_voted_commit == self.num_participants && self.cursor
                        == self.num_participants as u64 {
                        self.go_top(CoordinatorState::ReceivedVotesCommit)
                    } else if self.num_voted_commit < self.num_participants && self.cursor
                        == self.num_participants as u64 {
                        self.go_top(CoordinatorState::ReceivedVotesAbort)
                    } else {
                        self.poll_for_vote()
                    }
                }
            },
            _ => {
                self.try_counter = self.try_counter + 1;
                if self.try_counter > 3 {
                    self.state = CoordinatorState::ReceivedVotesAbort;
                    self.timeout = 1;
                    self.pc = Pc::Top;
                } else {
                    self.pc = Pc::Polling;
                }
                Action::Sleep { millis: 20 }
            },
        }
    }

    fn reply_to_client(&mut self) -> (a: Action)
        requires
            old(self).peers_wf(),
        ensures
            (final(self)@, a@) == reply_step(old(self)@),
            final(self).same_peers(old(self)),
    {
        if self.last_state == CoordinatorState::ReceivedVotesAbort {
            let name = self.client_message.senderid.clone();
            if self.client_comms.contains(&name) {
                let msg = self.uids.generate(
                    MessageType::ClientResultAbort,
                    String::from_str(""),
                    String::from_str(""),
                    0,
                );
                self.state = CoordinatorState::TakeRequests;
                self.num_voted_commit = 0;
                self.pc = Pc::Top;
                Action::SendToClient { name, msg }
            } else {
                self.halt_missing(name)
            }
        } else if self.last_state == CoordinatorState::ReceivedVotesCommit {
            if self.action == u32::MAX {
                self.halt_overflow()
            } else {
                self.action = self.action + 1;
                let name = self.client_message.senderid.clone();
                if self.client_comms.contains(&name) {
                    let msg = self.uids.generate(
                        MessageType::ClientResultCommit,
                        String::from_str(""),
                        String::from_str(""),
                        0,
                    );
                    self.state = CoordinatorState::TakeRequests;
                    self.num_voted_commit = 0;
                    self.pc = Pc::Top;
                    Action::SendToClient { name, msg }
                } else {
                    self.halt_missing(name)
                }
            }
        } else {
            self.state = CoordinatorState::TakeRequests;
            self.num_voted_commit = 0;
            self.pc = Pc::Top;
            Action::Proceed
        }
    }

    fn dispatch_state(&mut self) -> (a: Action)
        requires
            old(self).peers_wf(),
        ensures
            (final(self)@, a@) == dispatch(old(self)@),
            final(self).same_peers(old(self)),
    {
        match self.state {
            CoordinatorState::TakeRequests => {
                self.pc = Pc::Polling;
                self.cursor = 0;
                self.try_counter = 0;
                self.poll_for_request()
            },
            CoordinatorState::ProposalSent => {
                self.pc = Pc::Polling;
                self.num_voted_commit = 0;
                self.timeout = 0;
                self.cursor = 0;
                self.try_counter = 0;
                self.poll_for_vote()
            },
            CoordinatorState::SentGlobalDecision => self.reply_to_client(),
            _ => {
                self.pc = Pc::Sending;
                self.cursor = 0;
                self.send_next()
            },
        }
    }

    /// One step of the protocol: given whether the run should go on and
    /// what came of the last action, the coordinator moves as [`next`] says
    /// and returns the next piece of outside work. The first call takes
    /// `Outcome::Completed`.
    pub fn step(&mut self, running: bool, input: Outcome) -> (a: Action)
        requires
            old(self).wf(),
        ensures
            final(self).wf(),
            (final(self)@, a@) == next(old(self)@, running, input@),
            final(self).client_table() == old(self).client_table(),
            final(self).participant_table() == old(self).participant_table(),
    {
        proof {
            lemma_next_keeps_inv(self@, running, input@);
        }
        match self.pc {
            Pc::Top => {
                if !running {
                    match self.state {
                        CoordinatorState::ReceivedRequest
                        | CoordinatorState::ProposalSent
                        | CoordinatorState::ReceivedVotesAbort
                        | CoordinatorState::ReceivedVotesCommit => {
                            self.unknown_ops = self.unknown_ops + 1;
                        },
                        _ => {},
                    }
                    self.state = CoordinatorState::Done;
                    self.pc = Pc::Dispatch;
                    Action::Interrupted
                } else {
                    self.dispatch_state()
                }
            },
            Pc::Dispatch => self.dispatch_state(),
            Pc::Sending => self.send_next(),
            Pc::Polling => match self.state {
                CoordinatorState::TakeRequests => self.poll_for_request(),
                CoordinatorState::ProposalSent => self.poll_for_vote(),
                _ => {
                    let s = self.state;
                    self.go_top(s)
                },
            },
            Pc::AwaitReply => match self.state {
                CoordinatorState::TakeRequests => self.take_request_reply(input),
                CoordinatorState::ProposalSent => self.take_vote_reply(input),
                _ => {
                    let s = self.state;
                    self.go_top(s)
                },
            },
            Pc::Exiting => {
                self.pc = Pc::Finished;
                Action::Finish
            },
            _ => Action::Stopped,
        }
    }
}

} // verus!


