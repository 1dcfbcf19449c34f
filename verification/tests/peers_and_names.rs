use two_phase_commit::coordinator::{Comms, Coordinator, PeerTable};
use two_phase_commit::message::{MessageType, ProtocolMessage, UidSource};
use two_phase_commit::names::{client_name_string, decimal_string, greeting_txid_string, participant_name_string};
use two_phase_commit::oplog::OpLog;
use two_phase_commit::protocol::CoordinatorState;

#[test]
fn decimal_names() {
    assert_eq!(decimal_string(0), "0");
    assert_eq!(decimal_string(7), "7");
    assert_eq!(decimal_string(10), "10");
    assert_eq!(decimal_string(4294967295), "4294967295");
    assert_eq!(client_name_string(12), "client_12");
    assert_eq!(participant_name_string(305), "305");
    assert_eq!(greeting_txid_string(3), "coordinator_init_3");
}

#[test]
fn peer_table_lookup_after_insert() {
    let mut t: PeerTable<u8, u8> = PeerTable::new();
    assert!(!t.contains(&"a".to_string()));
    t.insert("a".to_string(), Comms::new(1, 2));
    t.insert("b".to_string(), Comms::new(3, 4));
    assert!(t.contains(&"a".to_string()));
    let c = t.get(&"b".to_string()).unwrap();
    assert_eq!((*c.sender(), *c.receiver()), (3, 4));
    t.insert("a".to_string(), Comms::new(5, 6));
    let c = t.get(&"a".to_string()).unwrap();
    assert_eq!((*c.sender(), *c.receiver()), (5, 6));
    assert!(t.get(&"c".to_string()).is_none());
}

#[test]
fn joins_count_and_register() {
    let mut c: Coordinator<u8, u8> = Coordinator::new("log".to_string());
    assert_eq!(c.state(), CoordinatorState::Quiescent);
    c.participant_join(&"0".to_string(), 1, 2);
    c.participant_join(&"0".to_string(), 3, 4);
    c.client_join("client_0".to_string(), 5, 6);
    assert_eq!(c.num_participants(), 2);
    assert_eq!(c.num_clients(), 1);
    let p = c.participant_comms(&"0".to_string()).unwrap();
    assert_eq!((*p.sender(), *p.receiver()), (3, 4));
    let cl = c.client_comms(&"client_0".to_string()).unwrap();
    assert_eq!((*cl.sender(), *cl.receiver()), (5, 6));
    assert!(c.client_comms(&"0".to_string()).is_none());
    let r = c.report_status();
    assert_eq!((r.committed, r.aborted, r.unknown), (0, 0, 0));
}

#[test]
fn log_appends_in_order() {
    let mut uids = UidSource::new();
    let mut log = OpLog::new("p".to_string());
    assert_eq!(log.seqno(), 0);
    log.append(&mut uids, MessageType::ParticipantVoteCommit, "t".to_string(), "s".to_string(), 4);
    log.append(&mut uids, MessageType::CoordinatorCommit, "t".to_string(), "c".to_string(), 4);
    assert_eq!(log.seqno(), 2);
    assert_eq!(log.entry(0).uid, 1);
    assert_eq!(log.entry(1).uid, 2);
    assert_eq!(log.entry(1).mtype, MessageType::CoordinatorCommit);
    assert_eq!(log.entry(1).senderid, "c");
    assert_eq!(uids.peek(), 3);
}

#[test]
fn messages_copy_and_generate() {
    let m = ProtocolMessage::instantiate(MessageType::ClientRequest, 9, "tx".to_string(), "me".to_string(), 3);
    let d = m.duplicate();
    assert_eq!((d.mtype, d.uid, d.txid.as_str(), d.senderid.as_str(), d.opid), (MessageType::ClientRequest, 9, "tx", "me", 3));
    let mut uids = UidSource::new();
    let g = uids.generate(MessageType::CoordinatorExit, String::new(), String::new(), 0);
    assert_eq!(g.uid, 1);
    assert_eq!(uids.peek(), 2);
}
