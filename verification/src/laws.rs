//! What holds of every run of the coordinator.

use vstd::prelude::*;
use crate::message::{MessageType, MessageView, following_uid};
use crate::protocol::{
    ActionView, CoordinatorState, CoordinatorView, OutcomeView, Pc, client_joined, commit_votes,
    initial, inv, latest, next, participant_joined, unanimous, undecided,
};
use crate::names::{client_name, greeting_txid, participant_name};

verus! {

proof fn lemma_commit_votes_push(s: Seq<MessageView>, e: MessageView)
    ensures
        commit_votes(s.push(e)) == commit_votes(s) + if e.mtype
            == MessageType::ParticipantVoteCommit {
            1nat
        } else {
            0nat
        },
{
    assert(s.push(e).drop_last() =~= s);
}

proof fn lemma_commit_votes_bound(s: Seq<MessageView>)
    ensures
        commit_votes(s) <= s.len(),
        commit_votes(s) == s.len() ==> forall|i: int|
            0 <= i < s.len() ==> (#[trigger] s[i]).mtype == MessageType::ParticipantVoteCommit,
    decreases s.len(),
{
    if s.len() > 0 {
        lemma_commit_votes_bound(s.drop_last());
        if commit_votes(s) == s.len() {
            assert forall|i: int| 0 <= i < s.len() implies (#[trigger] s[i]).mtype
                == MessageType::ParticipantVoteCommit by {
                if i < s.len() - 1 {
                    assert(s[i] == s.drop_last()[i]);
                }
            }
        }
    }
}

proof fn lemma_commit_votes_all(s: Seq<MessageView>)
    requires
        forall|i: int|
            0 <= i < s.len() ==> (#[trigger] s[i]).mtype == MessageType::ParticipantVoteCommit,
    ensures
        commit_votes(s) == s.len(),
    decreases s.len(),
{
    if s.len() > 0 {
        assert forall|i: int| 0 <= i < s.drop_last().len() implies (#[trigger] s.drop_last()[i]).mtype
            == MessageType::ParticipantVoteCommit by {
            assert(s.drop_last()[i] == s[i]);
        }
        lemma_commit_votes_all(s.drop_last());
    }
}

proof fn lemma_latest_push(log: Seq<MessageView>, k: nat, e: MessageView)
    requires
        k <= log.len(),
    ensures
        latest(log.push(e), k + 1) == latest(log, k).push(e),
{
    assert(latest(log.push(e), k + 1) =~= latest(log, k).push(e));
}

proof fn lemma_unanimous_from_count(log: Seq<MessageView>, n: nat)
    requires
        n <= log.len(),
        commit_votes(latest(log, n)) == n,
    ensures
        unanimous(log, n),
{
    let l = latest(log, n);
    lemma_commit_votes_bound(l);
    assert forall|i: int| log.len() - n <= i < log.len() implies (#[trigger] log[i]).mtype
        == MessageType::ParticipantVoteCommit by {
        assert(log[i] == l[i - (log.len() - n)]);
    }
}

proof fn lemma_member_counts(s: Set<Seq<char>>, x: Seq<char>)
    requires
        s.finite(),
        s.contains(x),
    ensures
        s.len() >= 1,
{
    assert(s.remove(x).len() == s.len() - 1);
}

/// Every step keeps the coordinator's invariant: the loops stay within
/// their bounds, the votes of the round are counted, a commit decision
/// rests on unanimous commit votes, and a decision is logged before its
/// result goes back to the client.
pub proof fn lemma_next_keeps_inv(m: CoordinatorView, running: bool, input: OutcomeView)
    requires
        inv(m),
    ensures
        inv(next(m, running, input).0),
{
    let m2 = next(m, running, input).0;
    if m.state == CoordinatorState::ProposalSent && (m.pc == Pc::AwaitReply) {
        match input {
            OutcomeView::Received(msg) => {
                if m.log.len() < u32::MAX {
                    let entry = MessageView {
                        mtype: msg.mtype,
                        uid: m.next_uid,
                        txid: msg.txid,
                        senderid: msg.senderid,
                        opid: msg.opid,
                    };
                    let l2 = m.log.push(entry);
                    lemma_latest_push(m.log, m.cursor as nat, entry);
                    lemma_commit_votes_push(latest(m.log, m.cursor as nat), entry);
                    lemma_commit_votes_bound(latest(l2, (m.cursor + 1) as nat));
                    if m2.state == CoordinatorState::ReceivedVotesCommit {
                        lemma_unanimous_from_count(l2, (m.cursor + 1) as nat);
                    }
                    if m2.pc == Pc::AwaitReply {
                        lemma_member_counts(m.participants, participant_name((m.cursor + 1) as nat));
                    }
                }
            },
            _ => {},
        }
    }
    if m.pc == Pc::Top || m.pc == Pc::Dispatch {
        if m.state == CoordinatorState::ProposalSent && m2.pc == Pc::AwaitReply {
            lemma_member_counts(m.participants, participant_name(0));
        }
    }
}

/// Two-phase commit's safety: the coordinator tells a participant to commit
/// only while every one of the round's votes, the last `num_participants`
/// entries of its log, is a commit vote.
pub proof fn lemma_commit_only_after_unanimous_votes(
    m: CoordinatorView,
    running: bool,
    input: OutcomeView,
)
    requires
        inv(m),
    ensures
        ({
            let a = next(m, running, input).1;
            match a {
                ActionView::SendToParticipant { name, msg } => msg.mtype
                    == MessageType::CoordinatorCommit ==> m.state
                    == CoordinatorState::ReceivedVotesCommit && unanimous(
                    m.log,
                    m.num_participants as nat,
                ),
                _ => true,
            }
        }),
{
}

/// A commit decision enters the log only right after the round's
/// `num_participants` votes, all of them commit votes; it is counted as a
/// committed operation and carries the requester's ids.
pub proof fn lemma_commit_decision_logged_after_votes(
    m: CoordinatorView,
    running: bool,
    input: OutcomeView,
)
    requires
        inv(m),
        m.state != CoordinatorState::SentGlobalDecision,
        next(m, running, input).0.state == CoordinatorState::SentGlobalDecision,
        next(m, running, input).0.last_state == CoordinatorState::ReceivedVotesCommit,
    ensures
        ({
            let m2 = next(m, running, input).0;
            &&& unanimous(m.log, m.num_participants as nat)
            &&& m2.log == m.log.push(
                MessageView {
                    mtype: MessageType::CoordinatorCommit,
                    uid: m.next_uid,
                    txid: m.client_message.txid,
                    senderid: m.client_message.senderid,
                    opid: m.client_message.opid,
                },
            )
            &&& m2.successful_ops == m.successful_ops + 1
            &&& m2.failed_ops == m.failed_ops
        }),
{
}

/// The decision follows the votes: when the last participant's answer
/// arrives, the coordinator decides to commit if and only if every
/// participant of the round voted to commit, and to abort otherwise.
pub proof fn lemma_last_vote_decides(m: CoordinatorView, msg: MessageView)
    requires
        inv(m),
        m.state == CoordinatorState::ProposalSent,
        m.pc == Pc::AwaitReply,
        m.cursor + 1 == m.num_participants,
        m.log.len() < u32::MAX,
    ensures
        ({
            let m2 = next(m, true, OutcomeView::Received(msg)).0;
            let all_commit = msg.mtype == MessageType::ParticipantVoteCommit && unanimous(
                m.log,
                m.cursor as nat,
            );
            &&& all_commit ==> m2.state == CoordinatorState::ReceivedVotesCommit
            &&& !all_commit ==> m2.state == CoordinatorState::ReceivedVotesAbort
            &&& m2.pc == Pc::Top
        }),
{
    let l = latest(m.log, m.cursor as nat);
    lemma_commit_votes_bound(l);
    if unanimous(m.log, m.cursor as nat) {
        assert forall|i: int| 0 <= i < l.len() implies (#[trigger] l[i]).mtype
            == MessageType::ParticipantVoteCommit by {
            assert(l[i] == m.log[i + (m.log.len() - m.cursor)]);
        }
        lemma_commit_votes_all(l);
    } else if m.num_voted_commit == m.cursor {
        lemma_unanimous_from_count(m.log, m.cursor as nat);
    }
}

/// A participant that stays silent through four polls makes the round
/// abort, marked as a timeout.
pub proof fn lemma_silence_aborts(m: CoordinatorView)
    requires
        inv(m),
        m.state == CoordinatorState::ProposalSent,
        m.pc == Pc::AwaitReply,
        m.try_counter == 3,
    ensures
        ({
            let (m2, a) = next(m, true, OutcomeView::NothingReceived);
            &&& m2.state == CoordinatorState::ReceivedVotesAbort
            &&& m2.timeout == 1
            &&& a == ActionView::Sleep { millis: 20 }
        }),
{
}

/// While taking requests, a client that stays silent is passed over once
/// four polls have found nothing: the coordinator never waits on one
/// client for ever.
pub proof fn lemma_silent_client_passed_over(m: CoordinatorView)
    requires
        inv(m),
        m.state == CoordinatorState::TakeRequests,
        m.pc == Pc::AwaitReply,
        m.try_counter >= 3,
    ensures
        next(m, true, OutcomeView::NothingReceived).0.cursor == m.cursor + 1,
{
}

/// Once the coordinator is done it stays done, whatever happens: no more
/// requests are taken.
pub proof fn lemma_done_is_final(m: CoordinatorView, running: bool, input: OutcomeView)
    requires
        m.state == CoordinatorState::Done,
    ensures
        next(m, running, input).0.state == CoordinatorState::Done,
{
}

/// A cleared running flag, seen at the top of the loop, ends the
/// simulation: the coordinator says so and goes to its final state.
pub proof fn lemma_interrupt_ends_run(m: CoordinatorView, input: OutcomeView)
    requires
        m.pc == Pc::Top,
    ensures
        next(m, false, input).0.state == CoordinatorState::Done,
        next(m, false, input).1 == ActionView::Interrupted,
{
}

/// The result that goes back to a client is the logged decision, and it
/// goes to the client that asked for the transaction.
pub proof fn lemma_result_matches_decision(m: CoordinatorView, running: bool, input: OutcomeView)
    requires
        inv(m),
    ensures
        ({
            let a = next(m, running, input).1;
            match a {
                ActionView::SendToClient { name, msg } => (msg.mtype
                    == MessageType::ClientResultCommit || msg.mtype
                    == MessageType::ClientResultAbort) ==> {
                    &&& m.state == CoordinatorState::SentGlobalDecision
                    &&& name == m.client_message.senderid
                    &&& name == m.log.last().senderid
                    &&& (msg.mtype == MessageType::ClientResultCommit <==> m.log.last().mtype
                        == MessageType::CoordinatorCommit)
                },
                _ => true,
            }
        }),
{
}

/// The counts of the status report follow the decisions: a step adds one
/// committed operation exactly when it records a commit decision, one
/// aborted operation exactly when it records an abort decision, and
/// otherwise leaves both counts alone.
pub proof fn lemma_decisions_counted(m: CoordinatorView, running: bool, input: OutcomeView)
    requires
        inv(m),
    ensures
        ({
            let m2 = next(m, running, input).0;
            let decided = m.state != CoordinatorState::SentGlobalDecision && m2.state
                == CoordinatorState::SentGlobalDecision;
            &&& m2.successful_ops == m.successful_ops + if decided && m2.last_state
                == CoordinatorState::ReceivedVotesCommit {
                1int
            } else {
                0int
            }
            &&& m2.failed_ops == m.failed_ops + if decided && m2.last_state
                == CoordinatorState::ReceivedVotesAbort {
                1int
            } else {
                0int
            }
        }),
{
}

/// Every answer that a participant gives to a poll for its vote is logged,
/// as received, under the next uid.
pub proof fn lemma_votes_logged(m: CoordinatorView, msg: MessageView)
    requires
        m.state == CoordinatorState::ProposalSent,
        m.pc == Pc::AwaitReply,
        m.log.len() < u32::MAX,
    ensures
        next(m, true, OutcomeView::Received(msg)).0.log == m.log.push(
            MessageView {
                mtype: msg.mtype,
                uid: m.next_uid,
                txid: msg.txid,
                senderid: msg.senderid,
                opid: msg.opid,
            },
        ),
{
}

/// Every request taken from a client is accounted for exactly once: when
/// no request is in the middle of its round, the committed, aborted and
/// unknown counts add up to the number of requests taken.
pub proof fn lemma_requests_accounted(m: CoordinatorView)
    requires
        inv(m),
        !undecided(m.state),
    ensures
        m.successful_ops + m.failed_ops + m.unknown_ops == m.requests_taken,
{
}

/// A request whose round is cut short by a cleared running flag is
/// counted as unknown, and neither as committed nor as aborted.
pub proof fn lemma_interrupted_request_unknown(m: CoordinatorView, input: OutcomeView)
    requires
        inv(m),
        m.pc == Pc::Top,
        undecided(m.state),
    ensures
        ({
            let m2 = next(m, false, input).0;
            &&& m2.unknown_ops == m.unknown_ops + 1
            &&& m2.successful_ops == m.successful_ops
            &&& m2.failed_ops == m.failed_ops
            &&& m2.requests_taken == m.requests_taken
        }),
{
}

/// All participants of a round get the same decision: while the
/// coordinator sends its decision, every message is the decision of its
/// state, goes to the participant whose turn it is, and the state stays.
pub proof fn lemma_round_decision_uniform(m: CoordinatorView, running: bool, input: OutcomeView)
    requires
        inv(m),
        m.pc == Pc::Sending,
        m.state == CoordinatorState::ReceivedVotesCommit || m.state
            == CoordinatorState::ReceivedVotesAbort,
    ensures
        ({
            let (m2, a) = next(m, running, input);
            match a {
                ActionView::SendToParticipant { name, msg } => {
                    &&& msg.mtype == if m.state == CoordinatorState::ReceivedVotesCommit {
                        MessageType::CoordinatorCommit
                    } else {
                        MessageType::CoordinatorAbort
                    }
                    &&& name == participant_name(m.cursor as nat)
                    &&& m2.state == m.state
                    &&& m2.pc == Pc::Sending
                    &&& m2.cursor == m.cursor + 1
                },
                _ => true,
            }
        }),
{
}

/// A client that registers under a fresh name adds one to the table of
/// clients: a table that holds one name per registration keeps doing so.
pub proof fn lemma_fresh_client_counted(m: CoordinatorView, name: Seq<char>)
    requires
        m.clients.finite(),
        m.clients.len() == m.num_clients,
        m.num_clients < u32::MAX,
        !m.clients.contains(name),
    ensures
        client_joined(m, name).clients.finite(),
        client_joined(m, name).clients.len() == client_joined(m, name).num_clients,
{
}

/// A participant that registers under a fresh name adds one to the table
/// of participants: a table that holds one name per registration keeps
/// doing so.
pub proof fn lemma_fresh_participant_counted(m: CoordinatorView, name: Seq<char>)
    requires
        m.participants.finite(),
        m.participants.len() == m.num_participants,
        m.num_participants < u32::MAX,
        !m.participants.contains(name),
    ensures
        participant_joined(m, name).participants.finite(),
        participant_joined(m, name).participants.len() == participant_joined(
            m,
            name,
        ).num_participants,
{
}

/// A round of votes ends on a received answer only once every participant
/// has answered in that round: the step that leaves `ProposalSent` on a
/// received answer has logged exactly that answer and counted
/// `num_participants` answers. Only silence ends a round earlier.
pub proof fn lemma_round_ends_after_every_answer(
    m: CoordinatorView,
    running: bool,
    msg: MessageView,
)
    requires
        inv(m),
        m.state == CoordinatorState::ProposalSent,
        m.pc == Pc::AwaitReply,
        next(m, running, OutcomeView::Received(msg)).0.state != CoordinatorState::ProposalSent,
        next(m, running, OutcomeView::Received(msg)).0.pc != Pc::Halted,
    ensures
        ({
            let m2 = next(m, running, OutcomeView::Received(msg)).0;
            &&& m2.cursor == m.num_participants
            &&& m.cursor + 1 == m.num_participants
            &&& m2.log.len() == m.log.len() + 1
            &&& m2.log.last().mtype == msg.mtype
            &&& m2.log.last().senderid == msg.senderid
        }),
{
}

/// Silence is the only other end of a round: a step that leaves
/// `ProposalSent` after an empty poll makes it an abort marked as a
/// timeout, and only after four failed polls of the round.
pub proof fn lemma_round_ends_early_only_by_silence(m: CoordinatorView, running: bool)
    requires
        inv(m),
        m.state == CoordinatorState::ProposalSent,
        m.pc == Pc::AwaitReply,
        next(m, running, OutcomeView::NothingReceived).0.state != CoordinatorState::ProposalSent,
    ensures
        ({
            let m2 = next(m, running, OutcomeView::NothingReceived).0;
            &&& m2.state == CoordinatorState::ReceivedVotesAbort
            &&& m2.try_counter == 4
            &&& m2.timeout == 1
        }),
{
}

/// The abort messages of a round say "timeout" exactly when the round's
/// vote collection ended by four failed polls, and are otherwise sent
/// without a sender.
pub proof fn lemma_abort_marks_timeout(m: CoordinatorView, running: bool, input: OutcomeView)
    requires
        inv(m),
        m.state == CoordinatorState::ReceivedVotesAbort,
    ensures
        match next(m, running, input).1 {
            ActionView::SendToParticipant { name, msg } => {
                &&& msg.mtype == MessageType::CoordinatorAbort
                &&& m.try_counter > 3 ==> msg.senderid == "timeout"@
                &&& m.try_counter <= 3 ==> msg.senderid == ""@
            },
            _ => true,
        },
{
}

/// A vote round starts afresh: no timeout mark, no votes and no failed
/// polls carry over from an earlier round.
pub proof fn lemma_round_starts_clean(m: CoordinatorView, running: bool, input: OutcomeView)
    requires
        inv(m),
        m.state == CoordinatorState::ProposalSent,
        m.pc == Pc::Dispatch || (m.pc == Pc::Top && running),
    ensures
        ({
            let m2 = next(m, running, input).0;
            m2.pc == Pc::AwaitReply ==> m2.timeout == 0 && m2.num_voted_commit == 0
                && m2.try_counter == 0 && m2.cursor == 0
        }),
{
}

/// An abort decision enters the log with the request's transaction id,
/// requester and operation id, under the next uid, and is counted as an
/// aborted operation.
pub proof fn lemma_abort_decision_logged(m: CoordinatorView, running: bool, input: OutcomeView)
    requires
        inv(m),
        m.state != CoordinatorState::SentGlobalDecision,
        next(m, running, input).0.state == CoordinatorState::SentGlobalDecision,
        next(m, running, input).0.last_state == CoordinatorState::ReceivedVotesAbort,
    ensures
        ({
            let m2 = next(m, running, input).0;
            &&& m.state == CoordinatorState::ReceivedVotesAbort
            &&& m2.log == m.log.push(
                MessageView {
                    mtype: MessageType::CoordinatorAbort,
                    uid: m.next_uid,
                    txid: m.client_message.txid,
                    senderid: m.client_message.senderid,
                    opid: m.client_message.opid,
                },
            )
            &&& m2.failed_ops == m.failed_ops + 1
            &&& m2.successful_ops == m.successful_ops
        }),
{
}

/// The coordinator after `k` steps in which every action completes.
pub open spec fn steps(m: CoordinatorView, k: nat) -> CoordinatorView
    decreases k,
{
    if k == 0 {
        m
    } else {
        steps(next(m, true, OutcomeView::Completed).0, (k - 1) as nat)
    }
}

/// The action of the step after `k` completed steps.
pub open spec fn action_at(m: CoordinatorView, k: nat) -> ActionView {
    next(steps(m, k), true, OutcomeView::Completed).1
}

/// Every participant and every client is registered under its numbered
/// name.
pub open spec fn peers_named(m: CoordinatorView) -> bool {
    &&& forall|i: nat| i < m.num_participants ==> #[trigger] m.participants.contains(
        participant_name(i),
    )
    &&& forall|j: nat| j < m.num_clients ==> #[trigger] m.clients.contains(client_name(j))
}

/// `a` tells peer number `i` of the shutdown order to exit: participants
/// first, then clients.
pub open spec fn exit_to_peer(m: CoordinatorView, a: ActionView, i: nat) -> bool {
    if i < m.num_participants {
        a matches ActionView::SendToParticipant { name, msg } && name == participant_name(i)
            && msg.mtype == MessageType::CoordinatorExit
    } else {
        a matches ActionView::SendToClient { name, msg } && name == client_name(
            (i - m.num_participants) as nat,
        ) && msg.mtype == MessageType::CoordinatorExit
    }
}

proof fn lemma_exits_from(m: CoordinatorView)
    requires
        m.state == CoordinatorState::Done,
        m.pc == Pc::Sending,
        m.cursor <= m.num_participants + m.num_clients,
        peers_named(m),
    ensures
        forall|k: nat|
            k < m.num_participants + m.num_clients - m.cursor ==> exit_to_peer(
                m,
                #[trigger] action_at(m, k),
                (m.cursor + k) as nat,
            ),
        action_at(m, (m.num_participants + m.num_clients - m.cursor) as nat) == (ActionView::Sleep { millis: 1000 }),
        action_at(m, (m.num_participants + m.num_clients - m.cursor + 1) as nat)
            == ActionView::Finish,
    decreases m.num_participants + m.num_clients - m.cursor,
{
    let total = m.num_participants + m.num_clients;
    if m.cursor < total {
        if m.cursor < m.num_participants {
            assert(m.participants.contains(participant_name(m.cursor as nat)));
        } else {
            assert(m.clients.contains(client_name((m.cursor - m.num_participants) as nat)));
        }
        let m1 = next(m, true, OutcomeView::Completed).0;
        lemma_exits_from(m1);
        assert forall|k: nat| k < total - m.cursor implies exit_to_peer(
            m,
            #[trigger] action_at(m, k),
            (m.cursor + k) as nat,
        ) by {
            if k > 0 {
                assert(steps(m, k) == steps(m1, (k - 1) as nat));
                assert(action_at(m, k) == action_at(m1, (k - 1) as nat));
            }
        }
        assert(steps(m, (total - m.cursor) as nat) == steps(m1, (total - m1.cursor) as nat));
        assert(steps(m, (total - m.cursor + 1) as nat) == steps(
            m1,
            (total - m1.cursor + 1) as nat,
        ));
    } else {
        reveal_with_fuel(steps, 2);
    }
}

/// Shutdown tells every peer to exit exactly once: once the coordinator
/// handles its final state (after the requests ran out, or after the
/// running flag was cleared), its next steps send `CoordinatorExit` to
/// participants `0..num_participants`, then to clients `0..num_clients`,
/// one each in that order, then pause and finish.
pub proof fn lemma_shutdown_reaches_every_peer(m: CoordinatorView)
    requires
        m.state == CoordinatorState::Done,
        m.pc == Pc::Dispatch || m.pc == Pc::Top,
        peers_named(m),
    ensures
        forall|k: nat|
            k < m.num_participants + m.num_clients ==> exit_to_peer(
                m,
                #[trigger] action_at(m, k),
                k,
            ),
        action_at(m, (m.num_participants + m.num_clients) as nat) == (ActionView::Sleep { millis: 1000 }),
        action_at(m, (m.num_participants + m.num_clients + 1) as nat) == ActionView::Finish,
{
    let m0 = CoordinatorView { pc: Pc::Sending, cursor: 0, ..m };
    lemma_exits_from(m0);
    assert forall|k: nat| k < m.num_participants + m.num_clients implies exit_to_peer(
        m,
        #[trigger] action_at(m, k),
        k,
    ) by {
        lemma_steps_from_dispatch(m, m0, k);
        assert(exit_to_peer(m0, action_at(m0, k), (m0.cursor + k) as nat));
    }
    lemma_steps_from_dispatch(m, m0, (m.num_participants + m.num_clients) as nat);
    lemma_steps_from_dispatch(m, m0, (m.num_participants + m.num_clients + 1) as nat);
}

proof fn lemma_steps_from_dispatch(m: CoordinatorView, m0: CoordinatorView, k: nat)
    requires
        sends_in_turn(m.state),
        m.pc == Pc::Dispatch || m.pc == Pc::Top,
        m0 == (CoordinatorView { pc: Pc::Sending, cursor: 0, ..m }),
    ensures
        k > 0 ==> steps(m, k) == steps(m0, k),
        action_at(m, k) == action_at(m0, k),
{
    assert(next(m, true, OutcomeView::Completed) == next(m0, true, OutcomeView::Completed));
    if k > 0 {
        assert(steps(m, k) == steps(next(m, true, OutcomeView::Completed).0, (k - 1) as nat));
        assert(steps(m0, k) == steps(next(m0, true, OutcomeView::Completed).0, (k - 1) as nat));
    }
}

/// States whose handling sends to its peers one after the other.
pub open spec fn sends_in_turn(s: CoordinatorState) -> bool {
    ||| s == CoordinatorState::Quiescent
    ||| s == CoordinatorState::ReceivedRequest
    ||| s == CoordinatorState::ReceivedVotesAbort
    ||| s == CoordinatorState::ReceivedVotesCommit
    ||| s == CoordinatorState::Done
}

/// The number of sends that the handling of a state makes.
pub open spec fn send_count(m: CoordinatorView) -> nat {
    match m.state {
        CoordinatorState::Quiescent => m.num_clients as nat,
        CoordinatorState::Done => (m.num_participants + m.num_clients) as nat,
        _ => m.num_participants as nat,
    }
}

/// `a` is the send number `i` of the state of `m`: the greeting of client
/// `i`; the request, unchanged, to participant `i`; the decision to
/// participant `i`, an abort saying "timeout" when the round timed out;
/// the exit order to peer `i`.
pub open spec fn expected_send(m: CoordinatorView, a: ActionView, i: nat) -> bool {
    match m.state {
        CoordinatorState::Quiescent => match a {
            ActionView::SendToClient { name, msg } => {
                &&& name == client_name(i)
                &&& msg.mtype == MessageType::ReadyToRecieve
                &&& msg.txid == greeting_txid(i)
                &&& msg.senderid == "coordinator"@
                &&& msg.opid == m.num_clients
            },
            _ => false,
        },
        CoordinatorState::ReceivedRequest => match a {
            ActionView::SendToParticipant { name, msg } => name == participant_name(i) && msg
                == m.client_message,
            _ => false,
        },
        CoordinatorState::ReceivedVotesAbort => match a {
            ActionView::SendToParticipant { name, msg } => {
                &&& name == participant_name(i)
                &&& msg.mtype == MessageType::CoordinatorAbort
                &&& msg.senderid == if m.try_counter > 3 {
                    "timeout"@
                } else {
                    ""@
                }
            },
            _ => false,
        },
        CoordinatorState::ReceivedVotesCommit => match a {
            ActionView::SendToParticipant { name, msg } => name == participant_name(i)
                && msg.mtype == MessageType::CoordinatorCommit,
            _ => false,
        },
        _ => exit_to_peer(m, a, i),
    }
}

/// What a send leaves as it was.
pub open spec fn send_frame(m: CoordinatorView, m2: CoordinatorView) -> bool {
    &&& m2.state == m.state
    &&& m2.pc == Pc::Sending
    &&& m2.num_clients == m.num_clients
    &&& m2.num_participants == m.num_participants
    &&& m2.clients == m.clients
    &&& m2.participants == m.participants
    &&& m2.client_message == m.client_message
    &&& m2.try_counter == m.try_counter
    &&& m2.timeout == m.timeout
    &&& m2.log == m.log
    &&& m2.successful_ops == m.successful_ops
    &&& m2.failed_ops == m.failed_ops
    &&& m2.last_state == m.last_state
}

proof fn lemma_send_loop(m: CoordinatorView)
    requires
        sends_in_turn(m.state),
        m.pc == Pc::Sending,
        m.cursor <= send_count(m),
        peers_named(m),
        inv(m),
    ensures
        forall|k: nat|
            k < send_count(m) - m.cursor ==> expected_send(
                m,
                #[trigger] action_at(m, k),
                (m.cursor + k) as nat,
            ),
        ({
            let e = steps(m, (send_count(m) - m.cursor) as nat);
            send_frame(m, e) && e.cursor == send_count(m) && inv(e)
        }),
    decreases send_count(m) - m.cursor,
{
    if m.cursor < send_count(m) {
        if m.state == CoordinatorState::Quiescent || (m.state == CoordinatorState::Done && m.cursor
            >= m.num_participants) {
            let j = if m.state == CoordinatorState::Quiescent {
                m.cursor as nat
            } else {
                (m.cursor - m.num_participants) as nat
            };
            assert(m.clients.contains(client_name(j)));
        } else {
            assert(m.participants.contains(participant_name(m.cursor as nat)));
        }
        let m1 = next(m, true, OutcomeView::Completed).0;
        lemma_next_keeps_inv(m, true, OutcomeView::Completed);
        lemma_send_loop(m1);
        assert forall|k: nat| k < send_count(m) - m.cursor implies expected_send(
            m,
            #[trigger] action_at(m, k),
            (m.cursor + k) as nat,
        ) by {
            if k > 0 {
                assert(steps(m, k) == steps(m1, (k - 1) as nat));
                assert(action_at(m, k) == action_at(m1, (k - 1) as nat));
                assert(expected_send(m1, action_at(m1, (k - 1) as nat), (m1.cursor + (k - 1)) as nat));
            }
        }
        assert(steps(m, (send_count(m) - m.cursor) as nat) == steps(
            m1,
            (send_count(m1) - m1.cursor) as nat,
        ));
    }
}

/// The greeting reaches every client: a quiescent coordinator's next
/// steps send `ReadyToRecieve` to clients `0..num_clients`, one each in
/// that order, each naming the client's number in its transaction id and
/// the number of clients in its operation id; then it pauses and starts
/// taking requests.
pub proof fn lemma_greeting_reaches_every_client(m: CoordinatorView)
    requires
        inv(m),
        m.state == CoordinatorState::Quiescent,
        m.pc == Pc::Dispatch || m.pc == Pc::Top,
        peers_named(m),
    ensures
        forall|k: nat|
            k < m.num_clients ==> expected_send(m, #[trigger] action_at(m, k), k),
        action_at(m, m.num_clients as nat) == (ActionView::Sleep { millis: 50 }),
        steps(m, (m.num_clients + 1) as nat).state == CoordinatorState::TakeRequests,
{
    let m0 = CoordinatorView { pc: Pc::Sending, cursor: 0, ..m };
    lemma_send_loop(m0);
    assert forall|k: nat| k < m.num_clients implies expected_send(m, #[trigger] action_at(m, k), k) by {
        lemma_steps_from_dispatch(m, m0, k);
        assert(expected_send(m0, action_at(m0, k), (m0.cursor + k) as nat));
    }
    let n = m.num_clients as nat;
    lemma_steps_from_dispatch(m, m0, n);
    lemma_steps_from_dispatch(m, m0, n + 1);
    lemma_steps_then(m0, n);
}

/// The request reaches every participant: a coordinator that has taken a
/// request sends it, unchanged, to participants `0..num_participants`, one
/// each in that order, and then collects votes, its log untouched.
pub proof fn lemma_proposal_reaches_every_participant(m: CoordinatorView)
    requires
        inv(m),
        m.state == CoordinatorState::ReceivedRequest,
        m.pc == Pc::Dispatch || m.pc == Pc::Top,
        peers_named(m),
    ensures
        forall|k: nat|
            k < m.num_participants ==> expected_send(m, #[trigger] action_at(m, k), k),
        action_at(m, m.num_participants as nat) == ActionView::Proceed,
        steps(m, (m.num_participants + 1) as nat).state == CoordinatorState::ProposalSent,
        steps(m, (m.num_participants + 1) as nat).log == m.log,
{
    let m0 = CoordinatorView { pc: Pc::Sending, cursor: 0, ..m };
    lemma_send_loop(m0);
    assert forall|k: nat| k < m.num_participants implies expected_send(
        m,
        #[trigger] action_at(m, k),
        k,
    ) by {
        lemma_steps_from_dispatch(m, m0, k);
        assert(expected_send(m0, action_at(m0, k), (m0.cursor + k) as nat));
    }
    let n = m.num_participants as nat;
    lemma_steps_from_dispatch(m, m0, n);
    lemma_steps_from_dispatch(m, m0, n + 1);
    lemma_steps_then(m0, n);
}

/// The decision reaches every participant: once the votes are in, the
/// coordinator sends the same decision to participants
/// `0..num_participants`, one each in that order, an abort saying
/// "timeout" exactly when the round timed out; then the decision, with
/// the request's ids, is the one new entry of the log.
pub proof fn lemma_decision_reaches_every_participant(m: CoordinatorView)
    requires
        inv(m),
        m.state == CoordinatorState::ReceivedVotesCommit || m.state
            == CoordinatorState::ReceivedVotesAbort,
        m.pc == Pc::Dispatch || m.pc == Pc::Top,
        peers_named(m),
        m.log.len() < u32::MAX,
        m.successful_ops < u32::MAX,
        m.failed_ops < u32::MAX,
    ensures
        forall|k: nat|
            k < m.num_participants ==> expected_send(m, #[trigger] action_at(m, k), k),
        action_at(m, m.num_participants as nat) == ActionView::Proceed,
        ({
            let e = steps(m, (m.num_participants + 1) as nat);
            &&& e.state == CoordinatorState::SentGlobalDecision
            &&& e.last_state == m.state
            &&& e.log.drop_last() == m.log
            &&& e.log.last().mtype == if m.state == CoordinatorState::ReceivedVotesCommit {
                MessageType::CoordinatorCommit
            } else {
                MessageType::CoordinatorAbort
            }
            &&& e.log.last().txid == m.client_message.txid
            &&& e.log.last().senderid == m.client_message.senderid
            &&& e.log.last().opid == m.client_message.opid
        }),
{
    let m0 = CoordinatorView { pc: Pc::Sending, cursor: 0, ..m };
    lemma_send_loop(m0);
    assert forall|k: nat| k < m.num_participants implies expected_send(
        m,
        #[trigger] action_at(m, k),
        k,
    ) by {
        lemma_steps_from_dispatch(m, m0, k);
        assert(expected_send(m0, action_at(m0, k), (m0.cursor + k) as nat));
    }
    let n = m.num_participants as nat;
    lemma_steps_from_dispatch(m, m0, n);
    lemma_steps_from_dispatch(m, m0, n + 1);
    lemma_steps_then(m0, n);
    let e = steps(m0, n + 1);
    assert(e.log.drop_last() =~= m.log);
}

proof fn lemma_steps_then(m: CoordinatorView, k: nat)
    ensures
        steps(m, k + 1) == next(steps(m, k), true, OutcomeView::Completed).0,
    decreases k,
{
    if k > 0 {
        lemma_steps_then(next(m, true, OutcomeView::Completed).0, (k - 1) as nat);
    } else {
        reveal_with_fuel(steps, 2);
    }
}

/// Polls go to the peer whose turn it is: clients only while requests are
/// taken, participants only while votes are collected, each the one
/// numbered by the loop's position, and the answer is awaited.
pub proof fn lemma_polls_address_turn(m: CoordinatorView, running: bool, input: OutcomeView)
    requires
        inv(m),
    ensures
        ({
            let (m2, a) = next(m, running, input);
            match a {
                ActionView::PollClient { name } => {
                    &&& m2.state == CoordinatorState::TakeRequests
                    &&& m2.pc == Pc::AwaitReply
                    &&& m2.cursor < m2.num_clients
                    &&& name == client_name(m2.cursor as nat)
                },
                ActionView::PollParticipant { name } => {
                    &&& m2.state == CoordinatorState::ProposalSent
                    &&& m2.pc == Pc::AwaitReply
                    &&& m2.cursor < m2.num_participants
                    &&& name == participant_name(m2.cursor as nat)
                },
                _ => true,
            }
        }),
{
    lemma_next_keeps_inv(m, running, input);
}

/// A client's request is taken as it came: the coordinator goes on to
/// propose exactly that message, and counts one more request taken.
pub proof fn lemma_request_taken_as_received(m: CoordinatorView, running: bool, msg: MessageView)
    requires
        inv(m),
        m.state == CoordinatorState::TakeRequests,
        m.pc == Pc::AwaitReply,
        msg.mtype == MessageType::ClientRequest,
    ensures
        ({
            let (m2, a) = next(m, running, OutcomeView::Received(msg));
            &&& m2.state == CoordinatorState::ReceivedRequest
            &&& m2.client_message == msg
            &&& m2.requests_taken == m.requests_taken + 1
            &&& m2.log == m.log
            &&& a == ActionView::Proceed
        }),
{
}

/// A client with no more requests is passed over: the next poll goes to
/// the following client, or, after the last one, the run ends.
pub proof fn lemma_no_more_requests_moves_on(m: CoordinatorView, running: bool, msg: MessageView)
    requires
        inv(m),
        m.state == CoordinatorState::TakeRequests,
        m.pc == Pc::AwaitReply,
        msg.mtype == MessageType::NoMoreRequests,
    ensures
        ({
            let (m2, a) = next(m, running, OutcomeView::Received(msg));
            &&& m.cursor + 1 < m.num_clients ==> a == (ActionView::PollClient {
                name: client_name((m.cursor + 1) as nat),
            }) || a is MissingPeer
            &&& m.cursor + 1 == m.num_clients ==> m2.state == CoordinatorState::Done
        }),
{
}

/// Every message that the coordinator makes takes the next uid, and the
/// uid is used up; only the proposal forwards the request as it came.
pub proof fn lemma_generated_uids_fresh(m: CoordinatorView, running: bool, input: OutcomeView)
    requires
        inv(m),
    ensures
        ({
            let (m2, a) = next(m, running, input);
            match a {
                ActionView::SendToClient { name, msg } => msg.uid == m.next_uid && m2.next_uid
                    == following_uid(m.next_uid),
                ActionView::SendToParticipant { name, msg } => if msg == m.client_message
                    && m.state == CoordinatorState::ReceivedRequest {
                    m2.next_uid == m.next_uid
                } else {
                    msg.uid == m.next_uid && m2.next_uid == following_uid(m.next_uid)
                },
                _ => true,
            }
        }),
{
}

/// A new coordinator satisfies the invariant.
pub proof fn lemma_initial_inv(log_path: Seq<char>, first_uid: u32)
    ensures
        inv(initial(log_path, first_uid)),
{
}

/// Registering a client keeps the invariant.
pub proof fn lemma_client_join_keeps_inv(m: CoordinatorView, name: Seq<char>)
    requires
        inv(m),
        m.num_clients < u32::MAX,
    ensures
        inv(client_joined(m, name)),
{
}

/// Registering a participant while quiescent keeps the invariant.
pub proof fn lemma_participant_join_keeps_inv(m: CoordinatorView, name: Seq<char>)
    requires
        inv(m),
        m.state == CoordinatorState::Quiescent,
        m.num_participants < u32::MAX,
    ensures
        inv(participant_joined(m, name)),
{
}

} // verus!


