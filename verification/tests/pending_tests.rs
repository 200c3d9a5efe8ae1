use backup_fam::command::{Command, Opcode};
use backup_fam::pending::{Outcome, PendingRequest, PendingTable, RegisterError, Resolution};

fn response_to(id: u64) -> Command {
    let request = Command::request(Opcode::FetchChunk, id, 2000, vec![]);
    Command::answer(&request, Opcode::FetchChunk, vec![1, 2, 3])
}

#[test]
fn register_sets_the_deadline() {
    let mut t = PendingTable::new();
    let e = t.register(7, 2000, 10_000).unwrap();
    assert_eq!(e, PendingRequest { command_id: 7, issued_at: 10_000, deadline: 12_000 });
    assert_eq!(t.len(), 1);
    assert!(t.contains(7));
    assert_eq!(t.get(7), Some(e));
}

#[test]
fn register_saturates_the_deadline() {
    let mut t = PendingTable::new();
    let e = t.register(1, 5, u64::MAX - 2).unwrap();
    assert_eq!(e.deadline, u64::MAX);
}

#[test]
fn second_register_fails_and_leaves_the_first() {
    let mut t = PendingTable::new();
    let first = t.register(7, 2000, 100).unwrap();
    assert_eq!(t.register(7, 50, 200), Err(RegisterError::DuplicateId));
    assert_eq!(t.len(), 1);
    assert_eq!(t.get(7), Some(first));
}

#[test]
fn complete_resolves_once() {
    let mut t = PendingTable::new();
    t.register(7, 2000, 100).unwrap();
    t.register(8, 2000, 100).unwrap();
    let r = t.complete(7, response_to(7), 150);
    assert_eq!(r, Some(Resolution { command_id: 7, outcome: Outcome::Response(response_to(7)) }));
    assert!(!t.contains(7));
    assert!(t.contains(8));
    assert_eq!(t.complete(7, response_to(7), 151), None);
    assert_eq!(t.len(), 1);
}

#[test]
fn complete_for_an_absent_id_is_a_no_op() {
    let mut t = PendingTable::new();
    t.register(8, 2000, 100).unwrap();
    assert_eq!(t.complete(9, response_to(9), 150), None);
    assert_eq!(t.len(), 1);
}

#[test]
fn a_response_after_the_deadline_resolves_with_timeout() {
    let mut t = PendingTable::new();
    t.register(7, 2000, 100).unwrap();
    let r = t.complete(7, response_to(7), 2100);
    assert_eq!(r, Some(Resolution { command_id: 7, outcome: Outcome::Timeout }));
    assert!(!t.contains(7));
}

#[test]
fn expire_due_times_out_what_is_due() {
    let mut t = PendingTable::new();
    t.register(1, 2000, 0).unwrap();
    t.register(2, 5000, 0).unwrap();
    t.register(3, 1000, 0).unwrap();
    assert_eq!(t.expire_due(1999), vec![Resolution { command_id: 3, outcome: Outcome::Timeout }]);
    assert_eq!(t.expire_due(2000), vec![Resolution { command_id: 1, outcome: Outcome::Timeout }]);
    assert_eq!(t.len(), 1);
    assert!(t.contains(2));
    assert!(!t.contains(1));
    assert_eq!(t.expire_due(2000), vec![]);
}

#[test]
fn expire_due_keeps_registration_order() {
    let mut t = PendingTable::new();
    t.register(5, 10, 0).unwrap();
    t.register(4, 10, 0).unwrap();
    t.register(6, 100, 0).unwrap();
    let out = t.expire_due(50);
    assert_eq!(
        out,
        vec![
            Resolution { command_id: 5, outcome: Outcome::Timeout },
            Resolution { command_id: 4, outcome: Outcome::Timeout },
        ]
    );
}

#[test]
fn cancel_then_response_is_dropped() {
    let mut t = PendingTable::new();
    t.register(7, 2000, 100).unwrap();
    t.register(8, 2000, 100).unwrap();
    assert!(t.cancel(7));
    assert!(!t.cancel(7));
    assert_eq!(t.complete(7, response_to(7), 150), None);
    assert_eq!(t.len(), 1);
    assert!(t.contains(8));
}

#[test]
fn a_cancelled_id_can_be_registered_again() {
    let mut t = PendingTable::new();
    t.register(7, 2000, 100).unwrap();
    t.cancel(7);
    assert!(t.register(7, 1, 5).is_ok());
}

#[test]
fn fail_all_resolves_everything_with_connection_lost() {
    let mut t = PendingTable::new();
    t.register(1, 2000, 0).unwrap();
    t.register(2, 2000, 0).unwrap();
    assert_eq!(
        t.fail_all(),
        vec![
            Resolution { command_id: 1, outcome: Outcome::ConnectionLost },
            Resolution { command_id: 2, outcome: Outcome::ConnectionLost },
        ]
    );
    assert_eq!(t.len(), 0);
    assert_eq!(t.fail_all(), vec![]);
}
