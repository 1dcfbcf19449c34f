use two_phase_commit::coordinator::Coordinator;
use two_phase_commit::message::{MessageType, ProtocolMessage};
use two_phase_commit::protocol::{Action, CoordinatorState, Outcome};

type Coord = Coordinator<u32, u32>;

fn msg(t: MessageType, txid: &str, sender: &str, opid: u32) -> ProtocolMessage {
    ProtocolMessage::instantiate(t, 0, txid.to_string(), sender.to_string(), opid)
}

fn setup(clients: u32, participants: u32) -> Coord {
    let mut c: Coord = Coordinator::new("logs/coordinator.log".to_string());
    for n in 0..clients {
        c.client_join(format!("client_{}", n), 10 + n, 20 + n);
    }
    for n in 0..participants {
        c.participant_join(&n.to_string(), 30 + n, 40 + n);
    }
    c
}

fn expect_send_client(a: Action, to: &str, t: MessageType) -> ProtocolMessage {
    match a {
        Action::SendToClient { name, msg } => {
            assert_eq!(name, to);
            assert_eq!(msg.mtype, t);
            msg
        }
        _ => panic!("expected a send to {}", to),
    }
}

fn expect_send_participant(a: Action, to: &str, t: MessageType) -> ProtocolMessage {
    match a {
        Action::SendToParticipant { name, msg } => {
            assert_eq!(name, to);
            assert_eq!(msg.mtype, t);
            msg
        }
        _ => panic!("expected a send to participant {}", to),
    }
}

fn expect_poll_client(a: Action, from: &str) {
    match a {
        Action::PollClient { name } => assert_eq!(name, from),
        _ => panic!("expected a poll of {}", from),
    }
}

fn expect_poll_participant(a: Action, from: &str) {
    match a {
        Action::PollParticipant { name } => assert_eq!(name, from),
        _ => panic!("expected a poll of participant {}", from),
    }
}

fn expect_sleep(a: Action, ms: u64) {
    match a {
        Action::Sleep { millis } => assert_eq!(millis, ms),
        _ => panic!("expected a pause of {} ms", ms),
    }
}

fn expect_proceed(a: Action) {
    assert!(matches!(a, Action::Proceed));
}

fn step(c: &mut Coord) -> Action {
    c.step(true, Outcome::Completed)
}

/// Greets the single client and brings it to its first poll.
fn greet_one_client(c: &mut Coord) {
    let g = expect_send_client(step(c), "client_0", MessageType::ReadyToRecieve);
    assert_eq!(g.txid, "coordinator_init_0");
    assert_eq!(g.senderid, "coordinator");
    assert_eq!(g.opid, 1);
    assert_eq!(g.uid, 1);
    expect_sleep(step(c), 50);
    assert_eq!(c.state(), CoordinatorState::TakeRequests);
    expect_poll_client(step(c), "client_0");
}

/// Delivers a request and brings the coordinator to the poll of the first vote.
fn propose_to_two(c: &mut Coord) {
    let a = c.step(true, Outcome::Received(msg(MessageType::ClientRequest, "tx1", "client_0", 7)));
    expect_proceed(a);
    assert_eq!(c.state(), CoordinatorState::ReceivedRequest);
    let p0 = expect_send_participant(step(c), "0", MessageType::ClientRequest);
    assert_eq!(p0.txid, "tx1");
    assert_eq!(p0.opid, 7);
    expect_send_participant(step(c), "1", MessageType::ClientRequest);
    expect_proceed(step(c));
    assert_eq!(c.state(), CoordinatorState::ProposalSent);
    expect_poll_participant(step(c), "0");
}

fn finish_with_exits(c: &mut Coord, participants: &[&str], clients: &[&str]) {
    for p in participants {
        expect_send_participant(step(c), p, MessageType::CoordinatorExit);
    }
    for cl in clients {
        expect_send_client(step(c), cl, MessageType::CoordinatorExit);
    }
    expect_sleep(step(c), 1000);
    assert!(matches!(step(c), Action::Finish));
    assert!(matches!(step(c), Action::Stopped));
}

#[test]
fn unanimous_votes_commit() {
    let mut c = setup(1, 2);
    greet_one_client(&mut c);
    propose_to_two(&mut c);
    let a = c.step(true, Outcome::Received(msg(MessageType::ParticipantVoteCommit, "tx1", "participant_0", 7)));
    expect_poll_participant(a, "1");
    let a = c.step(true, Outcome::Received(msg(MessageType::ParticipantVoteCommit, "tx1", "participant_1", 7)));
    expect_proceed(a);
    assert_eq!(c.state(), CoordinatorState::ReceivedVotesCommit);
    expect_send_participant(step(&mut c), "0", MessageType::CoordinatorCommit);
    expect_send_participant(step(&mut c), "1", MessageType::CoordinatorCommit);
    expect_proceed(step(&mut c));
    assert_eq!(c.state(), CoordinatorState::SentGlobalDecision);
    {
        let log = c.log();
        assert_eq!(log.len(), 3);
        assert_eq!(log.seqno(), 3);
        assert_eq!(log.entry(0).mtype, MessageType::ParticipantVoteCommit);
        assert_eq!(log.entry(0).senderid, "participant_0");
        assert_eq!(log.entry(1).mtype, MessageType::ParticipantVoteCommit);
        assert_eq!(log.entry(2).mtype, MessageType::CoordinatorCommit);
        assert_eq!(log.entry(2).txid, "tx1");
        assert_eq!(log.entry(2).senderid, "client_0");
        assert_eq!(log.entry(2).opid, 7);
        assert_eq!(log.path(), "logs/coordinator.log");
    }
    expect_send_client(step(&mut c), "client_0", MessageType::ClientResultCommit);
    assert_eq!(c.state(), CoordinatorState::TakeRequests);
    expect_poll_client(step(&mut c), "client_0");
    let a = c.step(true, Outcome::Received(msg(MessageType::NoMoreRequests, "", "client_0", 0)));
    expect_proceed(a);
    assert_eq!(c.state(), CoordinatorState::Done);
    finish_with_exits(&mut c, &["0", "1"], &["client_0"]);
    let r = c.report_status();
    assert_eq!((r.committed, r.aborted, r.unknown), (1, 0, 0));
}

#[test]
fn one_abort_vote_aborts() {
    let mut c = setup(1, 2);
    greet_one_client(&mut c);
    propose_to_two(&mut c);
    let a = c.step(true, Outcome::Received(msg(MessageType::ParticipantVoteCommit, "tx1", "participant_0", 7)));
    expect_poll_participant(a, "1");
    let a = c.step(true, Outcome::Received(msg(MessageType::ParticipantVoteAbort, "tx1", "participant_1", 7)));
    expect_proceed(a);
    assert_eq!(c.state(), CoordinatorState::ReceivedVotesAbort);
    let m = expect_send_participant(step(&mut c), "0", MessageType::CoordinatorAbort);
    assert_eq!(m.senderid, "");
    expect_send_participant(step(&mut c), "1", MessageType::CoordinatorAbort);
    expect_proceed(step(&mut c));
    assert_eq!(c.log().entry(2).mtype, MessageType::CoordinatorAbort);
    expect_send_client(step(&mut c), "client_0", MessageType::ClientResultAbort);
    let r = c.report_status();
    assert_eq!((r.committed, r.aborted, r.unknown), (0, 1, 0));
}

#[test]
fn silent_participant_times_out() {
    let mut c = setup(1, 2);
    greet_one_client(&mut c);
    propose_to_two(&mut c);
    for _ in 0..3 {
        expect_sleep(c.step(true, Outcome::NothingReceived), 20);
        expect_poll_participant(step(&mut c), "0");
    }
    expect_sleep(c.step(true, Outcome::NothingReceived), 20);
    assert_eq!(c.state(), CoordinatorState::ReceivedVotesAbort);
    let m = expect_send_participant(step(&mut c), "0", MessageType::CoordinatorAbort);
    assert_eq!(m.senderid, "timeout");
    let m = expect_send_participant(step(&mut c), "1", MessageType::CoordinatorAbort);
    assert_eq!(m.senderid, "timeout");
    expect_proceed(step(&mut c));
    assert_eq!(c.log().len(), 1);
    expect_send_client(step(&mut c), "client_0", MessageType::ClientResultAbort);
    assert_eq!(c.report_status().aborted, 1);
}

#[test]
fn silent_client_is_passed_over() {
    let mut c = setup(1, 1);
    greet_one_client(&mut c);
    for _ in 0..3 {
        expect_sleep(c.step(true, Outcome::NothingReceived), 20);
        expect_poll_client(step(&mut c), "client_0");
    }
    expect_sleep(c.step(true, Outcome::NothingReceived), 20);
    expect_proceed(step(&mut c));
    assert_eq!(c.state(), CoordinatorState::Done);
    finish_with_exits(&mut c, &["0"], &["client_0"]);
}

#[test]
fn other_messages_keep_polling_the_same_client() {
    let mut c = setup(2, 1);
    expect_send_client(step(&mut c), "client_0", MessageType::ReadyToRecieve);
    let g = expect_send_client(step(&mut c), "client_1", MessageType::ReadyToRecieve);
    assert_eq!(g.txid, "coordinator_init_1");
    assert_eq!(g.opid, 2);
    expect_sleep(step(&mut c), 50);
    expect_poll_client(step(&mut c), "client_0");
    let a = c.step(true, Outcome::Received(msg(MessageType::CoordinatorExit, "", "client_0", 0)));
    expect_poll_client(a, "client_0");
    let a = c.step(true, Outcome::Received(msg(MessageType::NoMoreRequests, "", "client_0", 0)));
    expect_poll_client(a, "client_1");
}

#[test]
fn cleared_flag_ends_the_run() {
    let mut c = setup(1, 1);
    assert!(matches!(c.step(false, Outcome::Completed), Action::Interrupted));
    assert_eq!(c.state(), CoordinatorState::Done);
    finish_with_exits(&mut c, &["0"], &["client_0"]);
    assert_eq!(c.state(), CoordinatorState::Done);
    let r = c.report_status();
    assert_eq!((r.committed, r.aborted, r.unknown), (0, 0, 0));
}

#[test]
fn request_without_participants_names_the_missing_peer() {
    let mut c = setup(1, 0);
    greet_one_client(&mut c);
    let a = c.step(true, Outcome::Received(msg(MessageType::ClientRequest, "tx1", "client_0", 7)));
    expect_proceed(a);
    expect_proceed(step(&mut c));
    match step(&mut c) {
        Action::MissingPeer { name } => assert_eq!(name, "0"),
        _ => panic!("expected a missing peer"),
    }
    assert!(matches!(step(&mut c), Action::Stopped));
}

#[test]
fn result_to_unknown_sender_names_it() {
    let mut c = setup(1, 1);
    greet_one_client(&mut c);
    let a = c.step(true, Outcome::Received(msg(MessageType::ClientRequest, "tx1", "stranger", 7)));
    expect_proceed(a);
    expect_send_participant(step(&mut c), "0", MessageType::ClientRequest);
    expect_proceed(step(&mut c));
    expect_poll_participant(step(&mut c), "0");
    let a = c.step(true, Outcome::Received(msg(MessageType::ParticipantVoteCommit, "tx1", "participant_0", 7)));
    expect_proceed(a);
    expect_send_participant(step(&mut c), "0", MessageType::CoordinatorCommit);
    expect_proceed(step(&mut c));
    match step(&mut c) {
        Action::MissingPeer { name } => assert_eq!(name, "stranger"),
        _ => panic!("expected a missing peer"),
    }
}

#[test]
fn generated_uids_follow_one_another() {
    let mut c = setup(2, 0);
    let a = expect_send_client(step(&mut c), "client_0", MessageType::ReadyToRecieve);
    let b = expect_send_client(step(&mut c), "client_1", MessageType::ReadyToRecieve);
    assert_eq!(a.uid, 1);
    assert_eq!(b.uid, 2);
}

#[test]
fn interrupted_request_is_unknown() {
    let mut c = setup(1, 1);
    greet_one_client(&mut c);
    let a = c.step(true, Outcome::Received(msg(MessageType::ClientRequest, "tx1", "client_0", 7)));
    expect_proceed(a);
    assert_eq!(c.state(), CoordinatorState::ReceivedRequest);
    assert!(matches!(c.step(false, Outcome::Completed), Action::Interrupted));
    assert_eq!(c.state(), CoordinatorState::Done);
    finish_with_exits(&mut c, &["0"], &["client_0"]);
    let r = c.report_status();
    assert_eq!((r.committed, r.aborted, r.unknown), (0, 0, 1));
}

#[test]
fn interrupt_after_votes_leaves_decision_unknown() {
    let mut c = setup(1, 2);
    greet_one_client(&mut c);
    propose_to_two(&mut c);
    c.step(true, Outcome::Received(msg(MessageType::ParticipantVoteCommit, "tx1", "participant_0", 7)));
    let a = c.step(true, Outcome::Received(msg(MessageType::ParticipantVoteCommit, "tx1", "participant_1", 7)));
    expect_proceed(a);
    assert_eq!(c.state(), CoordinatorState::ReceivedVotesCommit);
    assert!(matches!(c.step(false, Outcome::Completed), Action::Interrupted));
    finish_with_exits(&mut c, &["0", "1"], &["client_0"]);
    let r = c.report_status();
    assert_eq!((r.committed, r.aborted, r.unknown), (0, 0, 1));
}

#[test]
fn interrupt_between_requests_leaves_nothing_unknown() {
    let mut c = setup(1, 1);
    greet_one_client(&mut c);
    let a = c.step(true, Outcome::Received(msg(MessageType::ClientRequest, "tx1", "client_0", 7)));
    expect_proceed(a);
    expect_send_participant(step(&mut c), "0", MessageType::ClientRequest);
    expect_proceed(step(&mut c));
    expect_poll_participant(step(&mut c), "0");
    let a = c.step(true, Outcome::Received(msg(MessageType::ParticipantVoteAbort, "tx1", "participant_0", 7)));
    expect_proceed(a);
    expect_send_participant(step(&mut c), "0", MessageType::CoordinatorAbort);
    expect_proceed(step(&mut c));
    expect_send_client(step(&mut c), "client_0", MessageType::ClientResultAbort);
    assert!(matches!(c.step(false, Outcome::Completed), Action::Interrupted));
    finish_with_exits(&mut c, &["0"], &["client_0"]);
    let r = c.report_status();
    assert_eq!((r.committed, r.aborted, r.unknown), (0, 1, 0));
}
