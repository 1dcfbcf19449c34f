//! The coordinator's side of two-phase commit as a state machine.
//!
//! [`next`] is the whole protocol: from the coordinator's state, the value
//! of the "still running" flag and the outcome of the last piece of outside
//! work, it gives the coordinator's next state and the next piece of outside
//! work (an [`ActionView`]). The executable coordinator refines it.
//!
//! One round: the coordinator greets every client, then takes requests from
//! the clients in turn. A request is proposed to every participant; the
//! votes are collected and logged one by one. If every participant votes to
//! commit, the coordinator commits, otherwise (or when a participant stays
//! silent) it aborts; the decision goes to every participant, into the log,
//! and back to the client that asked. When the clients have no more
//! requests, or the flag says stop, every peer is told to exit.

use vstd::prelude::*;
use crate::message::{MessageType, MessageView, ProtocolMessage, following_uid};
use crate::names::{client_name, participant_name, greeting_txid};

verus! {

/// States of the 2PC coordinator.
#[derive(Clone, Copy, Debug, PartialEq, Eq, Structural)]
pub enum CoordinatorState {
    Quiescent,
    TakeRequests,
    ReceivedRequest,
    ProposalSent,
    ReceivedVotesAbort,
    ReceivedVotesCommit,
    SentGlobalDecision,
    Done,
}

/// Where the coordinator stands inside the handling of its state.
#[derive(Clone, Copy, Debug, PartialEq, Eq, Structural)]
pub enum Pc {
    /// About to look at the running flag, then handle the state.
    Top,
    /// About to handle the state without looking at the flag.
    Dispatch,
    /// Inside the sends of the state; `cursor` counts the sends made.
    Sending,
    /// About to poll the peer numbered `cursor`.
    Polling,
    /// A poll was issued; the next outcome holds its result.
    AwaitReply,
    /// The exit messages went out; the run ends with the next step.
    Exiting,
    /// The run ended.
    Finished,
    /// The run stopped on a fault (an unknown peer or a full counter).
    Halted,
}

/// The mathematical value of a coordinator.
#[verifier::ext_equal]
pub struct CoordinatorView {
    pub state: CoordinatorState,
    pub last_state: CoordinatorState,
    pub pc: Pc,
    pub cursor: u64,
    pub try_counter: u64,
    pub log_path: Seq<char>,
    pub log: Seq<MessageView>,
    pub next_uid: u32,
    pub clients: Set<Seq<char>>,
    pub num_clients: u32,
    pub participants: Set<Seq<char>>,
    pub num_participants: u32,
    pub client_message: MessageView,
    pub participant_message: MessageView,
    pub num_voted_commit: u32,
    pub action: u32,
    pub successful_ops: u32,
    pub failed_ops: u32,
    pub timeout: u32,
    /// Requests taken and left undecided when the run was cut short.
    pub unknown_ops: u32,
    /// Requests taken from clients so far.
    pub requests_taken: nat,
}

/// Outside work that the driver performs for the coordinator.
pub enum Action {
    /// Send `msg` to the client registered as `name`.
    SendToClient { name: String, msg: ProtocolMessage },
    /// Send `msg` to the participant registered as `name`.
    SendToParticipant { name: String, msg: ProtocolMessage },
    /// Try to receive, without blocking, from the client registered as `name`.
    PollClient { name: String },
    /// Try to receive, without blocking, from the participant registered as `name`.
    PollParticipant { name: String },
    /// Pause for `millis` milliseconds.
    Sleep { millis: u64 },
    /// The running flag was found cleared: say so.
    Interrupted,
    /// Nothing to do outside; step again.
    Proceed,
    /// Report the status and end the run.
    Finish,
    /// No peer is registered as `name`.
    MissingPeer { name: String },
    /// A counter is full and cannot count one more.
    CounterOverflow,
    /// The run is over; nothing more happens.
    Stopped,
}

/// The mathematical value of an [`Action`].
pub enum ActionView {
    SendToClient { name: Seq<char>, msg: MessageView },
    SendToParticipant { name: Seq<char>, msg: MessageView },
    PollClient { name: Seq<char> },
    PollParticipant { name: Seq<char> },
    Sleep { millis: u64 },
    Interrupted,
    Proceed,
    Finish,
    MissingPeer { name: Seq<char> },
    CounterOverflow,
    Stopped,
}

impl View for Action {
    type V = ActionView;

    open spec fn view(&self) -> ActionView {
        match self {
            Action::SendToClient { name, msg } => ActionView::SendToClient { name: name@, msg: msg@ },
            Action::SendToParticipant { name, msg } => ActionView::SendToParticipant {
                name: name@,
                msg: msg@,
            },
            Action::PollClient { name } => ActionView::PollClient { name: name@ },
            Action::PollParticipant { name } => ActionView::PollParticipant { name: name@ },
            Action::Sleep { millis } => ActionView::Sleep { millis: *millis },
            Action::Interrupted => ActionView::Interrupted,
            Action::Proceed => ActionView::Proceed,
            Action::Finish => ActionView::Finish,
            Action::MissingPeer { name } => ActionView::MissingPeer { name: name@ },
            Action::CounterOverflow => ActionView::CounterOverflow,
            Action::Stopped => ActionView::Stopped,
        }
    }
}

/// What came of the last action.
pub enum Outcome {
    /// The action was carried out and yields nothing.
    Completed,
    /// A poll received `0`.
    Received(ProtocolMessage),
    /// A poll found nothing to receive.
    NothingReceived,
}

/// The mathematical value of an [`Outcome`].
pub enum OutcomeView {
    Completed,
    Received(MessageView),
    NothingReceived,
}

impl View for Outcome {
    type V = OutcomeView;

    open spec fn view(&self) -> OutcomeView {
        match self {
            Outcome::Completed => OutcomeView::Completed,
            Outcome::Received(m) => OutcomeView::Received(m@),
            Outcome::NothingReceived => OutcomeView::NothingReceived,
        }
    }
}

/// A message with the coordinator's next uid; the uid is used up.
pub open spec fn generated(
    m: CoordinatorView,
    t: MessageType,
    tid: Seq<char>,
    sid: Seq<char>,
    oid: u32,
) -> (CoordinatorView, MessageView) {
    (
        CoordinatorView { next_uid: following_uid(m.next_uid), ..m },
        MessageView { mtype: t, uid: m.next_uid, txid: tid, senderid: sid, opid: oid },
    )
}

/// `m` with a message appended to the log, under the next uid.
pub open spec fn recorded(
    m: CoordinatorView,
    t: MessageType,
    tid: Seq<char>,
    sid: Seq<char>,
    oid: u32,
) -> CoordinatorView {
    CoordinatorView {
        log: m.log.push(
            MessageView { mtype: t, uid: m.next_uid, txid: tid, senderid: sid, opid: oid },
        ),
        next_uid: following_uid(m.next_uid),
        ..m
    }
}

/// The run stops: no peer is registered as `name`.
pub open spec fn missing(m: CoordinatorView, name: Seq<char>) -> (CoordinatorView, ActionView) {
    (CoordinatorView { pc: Pc::Halted, ..m }, ActionView::MissingPeer { name })
}

/// The run stops: a counter is full.
pub open spec fn overflowed(m: CoordinatorView) -> (CoordinatorView, ActionView) {
    (CoordinatorView { pc: Pc::Halted, ..m }, ActionView::CounterOverflow)
}

/// Back to the top of the loop with nothing to do outside.
pub open spec fn to_top(m: CoordinatorView, s: CoordinatorState) -> (CoordinatorView, ActionView) {
    (CoordinatorView { state: s, pc: Pc::Top, ..m }, ActionView::Proceed)
}

/// The greeting to the next client, or the move to taking requests.
pub open spec fn greet_step(m: CoordinatorView) -> (CoordinatorView, ActionView) {
    if m.cursor < m.num_clients {
        let name = client_name(m.cursor as nat);
        if m.clients.contains(name) {
            let (m1, msg) = generated(
                m,
                MessageType::ReadyToRecieve,
                greeting_txid(m.cursor as nat),
                "coordinator"@,
                m.num_clients,
            );
            (
                CoordinatorView { cursor: (m.cursor + 1) as u64, ..m1 },
                ActionView::SendToClient { name, msg },
            )
        } else {
            missing(m, name)
        }
    } else {
        (
            CoordinatorView { state: CoordinatorState::TakeRequests, pc: Pc::Top, ..m },
            ActionView::Sleep { millis: 50 },
        )
    }
}

/// The proposal to the next participant, or the move to collecting votes.
pub open spec fn propose_step(m: CoordinatorView) -> (CoordinatorView, ActionView) {
    if m.cursor < m.num_participants {
        let name = participant_name(m.cursor as nat);
        if m.participants.contains(name) {
            (
                CoordinatorView { cursor: (m.cursor + 1) as u64, ..m },
                ActionView::SendToParticipant { name, msg: m.client_message },
            )
        } else {
            missing(m, name)
        }
    } else {
        to_top(m, CoordinatorState::ProposalSent)
    }
}

/// The sender id of the abort messages: it tells whether a vote timed out.
pub open spec fn abort_sender(m: CoordinatorView) -> Seq<char> {
    if m.timeout == 1 {
        "timeout"@
    } else {
        ""@
    }
}

/// The global abort to the next participant, or, once all have it, the
/// decision recorded and counted.
pub open spec fn abort_step(m: CoordinatorView) -> (CoordinatorView, ActionView) {
    if m.cursor < m.num_participants {
        let name = participant_name(m.cursor as nat);
        if m.participants.contains(name) {
            let (m1, msg) = generated(m, MessageType::CoordinatorAbort, ""@, abort_sender(m), 0);
            (
                CoordinatorView { cursor: (m.cursor + 1) as u64, ..m1 },
                ActionView::SendToParticipant { name, msg },
            )
        } else {
            missing(m, name)
        }
    } else if m.failed_ops == u32::MAX || m.log.len() >= u32::MAX {
        overflowed(m)
    } else {
        let m1 = recorded(
            m,
            MessageType::CoordinatorAbort,
            m.client_message.txid,
            m.client_message.senderid,
            m.client_message.opid,
        );
        (
            CoordinatorView {
                failed_ops: (m.failed_ops + 1) as u32,
                state: CoordinatorState::SentGlobalDecision,
                last_state: CoordinatorState::ReceivedVotesAbort,
                pc: Pc::Top,
                ..m1
            },
            ActionView::Proceed,
        )
    }
}

/// The global commit to the next participant, or, once all have it, the
/// decision recorded and counted.
pub open spec fn commit_step(m: CoordinatorView) -> (CoordinatorView, ActionView) {
    if m.cursor < m.num_participants {
        let name = participant_name(m.cursor as nat);
        if m.participants.contains(name) {
            let (m1, msg) = generated(m, MessageType::CoordinatorCommit, ""@, ""@, 0);
            (
                CoordinatorView { cursor: (m.cursor + 1) as u64, ..m1 },
                ActionView::SendToParticipant { name, msg },
            )
        } else {
            missing(m, name)
        }
    } else if m.successful_ops == u32::MAX || m.log.len() >= u32::MAX {
        overflowed(m)
    } else {
        let m1 = recorded(
            m,
            MessageType::CoordinatorCommit,
            m.client_message.txid,
            m.client_message.senderid,
            m.client_message.opid,
        );
        (
            CoordinatorView {
                successful_ops: (m.successful_ops + 1) as u32,
                state: CoordinatorState::SentGlobalDecision,
                last_state: CoordinatorState::ReceivedVotesCommit,
                pc: Pc::Top,
                ..m1
            },
            ActionView::Proceed,
        )
    }
}

/// The exit message to the next participant, then to the next client, then
/// the final pause.
pub open spec fn exit_step(m: CoordinatorView) -> (CoordinatorView, ActionView) {
    if m.cursor < m.num_participants {
        let name = participant_name(m.cursor as nat);
        if m.participants.contains(name) {
            let (m1, msg) = generated(m, MessageType::CoordinatorExit, ""@, ""@, 0);
            (
                CoordinatorView { cursor: (m.cursor + 1) as u64, ..m1 },
                ActionView::SendToParticipant { name, msg },
            )
        } else {
            missing(m, name)
        }
    } else if m.cursor < m.num_participants + m.num_clients {
        let name = client_name((m.cursor - m.num_participants) as nat);
        if m.clients.contains(name) {
            let (m1, msg) = generated(m, MessageType::CoordinatorExit, ""@, ""@, 0);
            (
                CoordinatorView { cursor: (m.cursor + 1) as u64, ..m1 },
                ActionView::SendToClient { name, msg },
            )
        } else {
            missing(m, name)
        }
    } else {
        (CoordinatorView { pc: Pc::Exiting, ..m }, ActionView::Sleep { millis: 1000 })
    }
}

/// The next send of a state that sends to its peers one after the other.
pub open spec fn send_step(m: CoordinatorView) -> (CoordinatorView, ActionView) {
    match m.state {
        CoordinatorState::Quiescent => greet_step(m),
        CoordinatorState::ReceivedRequest => propose_step(m),
        CoordinatorState::ReceivedVotesAbort => abort_step(m),
        CoordinatorState::ReceivedVotesCommit => commit_step(m),
        CoordinatorState::Done => exit_step(m),
        _ => to_top(m, m.state),
    }
}

/// The poll of the next client for a request, or the end of the requests.
pub open spec fn request_poll(m: CoordinatorView) -> (CoordinatorView, ActionView) {
    if m.cursor == m.num_clients {
        to_top(m, CoordinatorState::Done)
    } else {
        let name = client_name(m.cursor as nat);
        if m.clients.contains(name) {
            (CoordinatorView { pc: Pc::AwaitReply, ..m }, ActionView::PollClient { name })
        } else {
            missing(m, name)
        }
    }
}

/// What the coordinator makes of a client's answer to a poll.
pub open spec fn request_reply(m: CoordinatorView, input: OutcomeView) -> (
    CoordinatorView,
    ActionView,
) {
    match input {
        OutcomeView::Received(msg) => {
            let m1 = CoordinatorView { client_message: msg, ..m };
            if msg.mtype == MessageType::ClientRequest {
                to_top(
                    CoordinatorView { requests_taken: m.requests_taken + 1, ..m1 },
                    CoordinatorState::ReceivedRequest,
                )
            } else if msg.mtype == MessageType::NoMoreRequests {
                request_poll(CoordinatorView { cursor: (m.cursor + 1) as u64, ..m1 })
            } else {
                request_poll(m1)
            }
        },
        _ => {
            let tc = (m.try_counter + 1) as u64;
            (
                CoordinatorView {
                    try_counter: tc,
                    cursor: if tc > 3 {
                        (m.cursor + 1) as u64
                    } else {
                        m.cursor
                    },
                    pc: Pc::Polling,
                    ..m
                },
                ActionView::Sleep { millis: 20 },
            )
        },
    }
}

/// The poll of the next participant for its vote.
pub open spec fn vote_poll(m: CoordinatorView) -> (CoordinatorView, ActionView) {
    let name = participant_name(m.cursor as nat);
    if m.participants.contains(name) {
        (CoordinatorView { pc: Pc::AwaitReply, ..m }, ActionView::PollParticipant { name })
    } else {
        missing(m, name)
    }
}

/// What the coordinator makes of a participant's answer to a poll: a vote
/// is logged and counted; the last one decides; silence aborts.
pub open spec fn vote_reply(m: CoordinatorView, input: OutcomeView) -> (
    CoordinatorView,
    ActionView,
) {
    match input {
        OutcomeView::Received(msg) => {
            if m.log.len() >= u32::MAX {
                overflowed(m)
            } else {
                let m1 = recorded(
                    CoordinatorView {
                        participant_message: msg,
                        cursor: (m.cursor + 1) as u64,
                        ..m
                    },
                    msg.mtype,
                    msg.txid,
                    msg.senderid,
                    msg.opid,
                );
                let m2 = if msg.mtype == MessageType::ParticipantVoteCommit {
                    CoordinatorView { num_voted_commit: (m1.num_voted_commit + 1) as u32, ..m1 }
                } else {
                    m1
                };
                if m2.num_voted_commit == m2.num_participants && m2.cursor
                    == m2.num_participants {
                    to_top(m2, CoordinatorState::ReceivedVotesCommit)
                } else if m2.num_voted_commit < m2.num_participants && m2.cursor
                    == m2.num_participants {
                    to_top(m2, CoordinatorState::ReceivedVotesAbort)
                } else {
                    vote_poll(m2)
                }
            }
        },
        _ => {
            let tc = (m.try_counter + 1) as u64;
            if tc > 3 {
                (
                    CoordinatorView {
                        try_counter: tc,
                        state: CoordinatorState::ReceivedVotesAbort,
                        timeout: 1,
                        pc: Pc::Top,
                        ..m
                    },
                    ActionView::Sleep { millis: 20 },
                )
            } else {
                (
                    CoordinatorView { try_counter: tc, pc: Pc::Polling, ..m },
                    ActionView::Sleep { millis: 20 },
                )
            }
        },
    }
}

/// The result of the decided transaction, back to the client that asked.
pub open spec fn reply_step(m: CoordinatorView) -> (CoordinatorView, ActionView) {
    let name = m.client_message.senderid;
    if m.last_state == CoordinatorState::ReceivedVotesAbort {
        if m.clients.contains(name) {
            let (m1, msg) = generated(m, MessageType::ClientResultAbort, ""@, ""@, 0);
            (
                CoordinatorView {
                    state: CoordinatorState::TakeRequests,
                    num_voted_commit: 0,
                    pc: Pc::Top,
                    ..m1
                },
                ActionView::SendToClient { name, msg },
            )
        } else {
            missing(m, name)
        }
    } else if m.last_state == CoordinatorState::ReceivedVotesCommit {
        if m.action == u32::MAX {
            overflowed(m)
        } else {
            let m0 = CoordinatorView { action: (m.action + 1) as u32, ..m };
            if m.clients.contains(name) {
                let (m1, msg) = generated(m0, MessageType::ClientResultCommit, ""@, ""@, 0);
                (
                    CoordinatorView {
                        state: CoordinatorState::TakeRequests,
                        num_voted_commit: 0,
                        pc: Pc::Top,
                        ..m1
                    },
                    ActionView::SendToClient { name, msg },
                )
            } else {
                missing(m0, name)
            }
        }
    } else {
        (
            CoordinatorView {
                state: CoordinatorState::TakeRequests,
                num_voted_commit: 0,
                pc: Pc::Top,
                ..m
            },
            ActionView::Proceed,
        )
    }
}

/// The handling of the current state, from its beginning.
pub open spec fn dispatch(m: CoordinatorView) -> (CoordinatorView, ActionView) {
    match m.state {
        CoordinatorState::TakeRequests => request_poll(
            CoordinatorView { pc: Pc::Polling, cursor: 0, try_counter: 0, ..m },
        ),
        CoordinatorState::ProposalSent => vote_poll(
            CoordinatorView {
                pc: Pc::Polling,
                num_voted_commit: 0,
                timeout: 0,
                cursor: 0,
                try_counter: 0,
                ..m
            },
        ),
        CoordinatorState::SentGlobalDecision => reply_step(m),
        _ => send_step(CoordinatorView { pc: Pc::Sending, cursor: 0, ..m }),
    }
}

/// One step of the coordinator: its next state and the next outside work,
/// given the running flag and what came of the last action.
pub open spec fn next(m: CoordinatorView, running: bool, input: OutcomeView) -> (
    CoordinatorView,
    ActionView,
) {
    match m.pc {
        Pc::Top => if !running {
            (
                CoordinatorView {
                    state: CoordinatorState::Done,
                    pc: Pc::Dispatch,
                    unknown_ops: (m.unknown_ops + in_flight(m.state)) as u32,
                    ..m
                },
                ActionView::Interrupted,
            )
        } else {
            dispatch(m)
        },
        Pc::Dispatch => dispatch(m),
        Pc::Sending => send_step(m),
        Pc::Polling => match m.state {
            CoordinatorState::TakeRequests => request_poll(m),
            CoordinatorState::ProposalSent => vote_poll(m),
            _ => to_top(m, m.state),
        },
        Pc::AwaitReply => match m.state {
            CoordinatorState::TakeRequests => request_reply(m, input),
            CoordinatorState::ProposalSent => vote_reply(m, input),
            _ => to_top(m, m.state),
        },
        Pc::Exiting => (CoordinatorView { pc: Pc::Finished, ..m }, ActionView::Finish),
        Pc::Finished | Pc::Halted => (m, ActionView::Stopped),
    }
}

/// The message that the coordinator holds before it has received any.
pub open spec fn placeholder_message() -> MessageView {
    MessageView {
        mtype: MessageType::ReadyToRecieve,
        uid: 100,
        txid: "coord-init"@,
        senderid: "coord-init"@,
        opid: 0,
    }
}

/// A new coordinator whose log is kept at `log_path`: quiescent, with no
/// peers and nothing counted.
pub open spec fn initial(log_path: Seq<char>, first_uid: u32) -> CoordinatorView {
    CoordinatorView {
        state: CoordinatorState::Quiescent,
        last_state: CoordinatorState::Quiescent,
        pc: Pc::Top,
        cursor: 0,
        try_counter: 0,
        log_path,
        log: Seq::empty(),
        next_uid: first_uid,
        clients: Set::empty(),
        num_clients: 0,
        participants: Set::empty(),
        num_participants: 0,
        client_message: placeholder_message(),
        participant_message: placeholder_message(),
        num_voted_commit: 0,
        action: 0,
        successful_ops: 0,
        failed_ops: 0,
        timeout: 0,
        unknown_ops: 0,
        requests_taken: 0,
    }
}

/// `m` after a client registers as `name`.
pub open spec fn client_joined(m: CoordinatorView, name: Seq<char>) -> CoordinatorView {
    CoordinatorView {
        clients: m.clients.insert(name),
        num_clients: (m.num_clients + 1) as u32,
        ..m
    }
}

/// `m` after a participant registers as `name`.
pub open spec fn participant_joined(m: CoordinatorView, name: Seq<char>) -> CoordinatorView {
    CoordinatorView {
        participants: m.participants.insert(name),
        num_participants: (m.num_participants + 1) as u32,
        ..m
    }
}

/// The number of commit votes in `s`.
pub open spec fn commit_votes(s: Seq<MessageView>) -> nat
    decreases s.len(),
{
    if s.len() == 0 {
        0
    } else {
        commit_votes(s.drop_last()) + if s.last().mtype == MessageType::ParticipantVoteCommit {
            1nat
        } else {
            0nat
        }
    }
}

/// The last `k` entries of `log`.
pub open spec fn latest(log: Seq<MessageView>, k: nat) -> Seq<MessageView> {
    log.subrange(log.len() - k, log.len() as int)
}

/// The last `n` entries of `log` are all commit votes.
pub open spec fn unanimous(log: Seq<MessageView>, n: nat) -> bool {
    &&& n <= log.len()
    &&& forall|i: int|
        log.len() - n <= i < log.len() ==> (#[trigger] log[i]).mtype
            == MessageType::ParticipantVoteCommit
}

/// States in which the coordinator works on a client's request.
pub open spec fn serves_request(s: CoordinatorState) -> bool {
    ||| s == CoordinatorState::ReceivedRequest
    ||| s == CoordinatorState::ProposalSent
    ||| s == CoordinatorState::ReceivedVotesAbort
    ||| s == CoordinatorState::ReceivedVotesCommit
    ||| s == CoordinatorState::SentGlobalDecision
}

/// States in which a taken request waits for its decision.
pub open spec fn undecided(s: CoordinatorState) -> bool {
    ||| s == CoordinatorState::ReceivedRequest
    ||| s == CoordinatorState::ProposalSent
    ||| s == CoordinatorState::ReceivedVotesAbort
    ||| s == CoordinatorState::ReceivedVotesCommit
}

/// One while a taken request waits for its decision, else zero.
pub open spec fn in_flight(s: CoordinatorState) -> nat {
    if undecided(s) {
        1
    } else {
        0
    }
}

/// The bounds of the send loops.
pub open spec fn sending_ok(m: CoordinatorView) -> bool {
    match m.state {
        CoordinatorState::Quiescent => m.cursor <= m.num_clients,
        CoordinatorState::ReceivedRequest => m.cursor <= m.num_participants,
        CoordinatorState::ReceivedVotesAbort => m.cursor <= m.num_participants,
        CoordinatorState::ReceivedVotesCommit => m.cursor <= m.num_participants,
        CoordinatorState::Done => m.cursor <= m.num_participants + m.num_clients,
        _ => false,
    }
}

/// The bounds of the poll loops, and the count of the votes collected so far.
pub open spec fn polling_ok(m: CoordinatorView) -> bool {
    match m.state {
        CoordinatorState::TakeRequests => {
            &&& m.cursor <= m.num_clients
            &&& m.pc == Pc::AwaitReply ==> m.cursor < m.num_clients
            &&& m.try_counter <= m.cursor + 3
        },
        CoordinatorState::ProposalSent => {
            &&& m.cursor < m.num_participants
            &&& m.try_counter <= 3
            &&& m.timeout == 0
            &&& m.num_voted_commit <= m.cursor
            &&& m.cursor <= m.log.len()
            &&& m.num_voted_commit == commit_votes(latest(m.log, m.cursor as nat))
        },
        _ => false,
    }
}

/// The decision is the last log entry, under the requester's id.
pub open spec fn decision_logged(m: CoordinatorView) -> bool {
    &&& m.log.len() > 0
    &&& m.log.last().senderid == m.client_message.senderid
    &&& (m.last_state == CoordinatorState::ReceivedVotesCommit || m.last_state
        == CoordinatorState::ReceivedVotesAbort)
    &&& m.last_state == CoordinatorState::ReceivedVotesCommit ==> m.log.last().mtype
        == MessageType::CoordinatorCommit
    &&& m.last_state == CoordinatorState::ReceivedVotesAbort ==> m.log.last().mtype
        == MessageType::CoordinatorAbort
}

/// What holds of every state that the coordinator reaches.
pub open spec fn inv(m: CoordinatorView) -> bool {
    &&& m.clients.finite()
    &&& m.clients.len() <= m.num_clients
    &&& m.participants.finite()
    &&& m.participants.len() <= m.num_participants
    &&& m.log.len() <= u32::MAX
    &&& m.pc == Pc::Sending ==> sending_ok(m)
    &&& (m.pc == Pc::Polling || m.pc == Pc::AwaitReply) ==> polling_ok(m)
    &&& serves_request(m.state) ==> m.client_message.mtype == MessageType::ClientRequest
    &&& m.successful_ops + m.failed_ops + m.unknown_ops + in_flight(m.state) == m.requests_taken
    &&& m.unknown_ops <= 1
    &&& m.state == CoordinatorState::ReceivedVotesAbort ==> (m.timeout == 1 <==> m.try_counter > 3)
    &&& m.state == CoordinatorState::ReceivedVotesAbort ==> (m.timeout == 0 || m.timeout == 1)
    &&& m.unknown_ops == 1 ==> m.state == CoordinatorState::Done
    &&& m.state == CoordinatorState::ReceivedVotesCommit ==> unanimous(
        m.log,
        m.num_participants as nat,
    )
    &&& m.state == CoordinatorState::SentGlobalDecision ==> decision_logged(m)
}

} // verus!

