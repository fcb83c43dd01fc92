use squidtun::session::{
    classify, IoFailure, NonBlocking, Session, SessionCall, SessionReply, CONNECTION_TIMEOUT,
    TIMEOUT_NANOS,
};
use squidtun::table::SessionTable;

const SECOND: u128 = 1_000_000_000;

fn failure(would_block: bool, message: &str) -> IoFailure {
    IoFailure { would_block, message: message.to_owned() }
}

#[test]
fn new_session_is_open_in_both_directions() {
    let session = Session::connect("abc".to_owned(), 7u8, 42);
    assert_eq!(session.id(), "abc");
    assert_eq!(*session.stream(), 7u8);
    assert!(!session.has_sent_eof());
    assert!(!session.has_received_eof());
    assert_eq!(session.last_used(), 42);
    assert!(!session.is_done());
}

#[test]
fn timeout_is_thirty_seconds() {
    assert_eq!(CONNECTION_TIMEOUT, 30);
    assert_eq!(TIMEOUT_NANOS, 30 * SECOND);
}

#[test]
fn read_of_bytes_keeps_the_stream_open() {
    let mut session = Session::connect("abc".to_owned(), (), 0);
    let res = session.read_chunk(5, Ok(b"hello".to_vec()));
    assert!(matches!(res, NonBlocking::Success(data) if data == b"hello".to_vec()));
    assert!(!session.has_received_eof());
    assert_eq!(session.last_used(), 5);
}

#[test]
fn read_of_nothing_is_the_end() {
    let mut session = Session::connect("abc".to_owned(), (), 0);
    let res = session.read_chunk(5, Ok(Vec::new()));
    assert!(matches!(res, NonBlocking::Success(data) if data.is_empty()));
    assert!(session.has_received_eof());
    assert!(!session.is_done());
}

#[test]
fn read_that_would_block_changes_no_flag() {
    let mut session = Session::connect("abc".to_owned(), (), 0);
    let res = session.read_chunk(9, Err(failure(true, "would block")));
    assert!(matches!(res, NonBlocking::WouldBlock));
    assert!(!session.has_received_eof());
    assert_eq!(session.last_used(), 9);
}

#[test]
fn read_that_fails_hands_on_the_failure() {
    let mut session = Session::connect("abc".to_owned(), (), 0);
    let res = session.read_chunk(9, Err(failure(false, "connection reset")));
    assert!(matches!(res, NonBlocking::Error(f) if f.message == "connection reset" && !f.would_block));
    assert!(!session.has_received_eof());
}

#[test]
fn write_reports_what_the_socket_took() {
    let mut session = Session::connect("abc".to_owned(), (), 0);
    assert!(matches!(session.write_chunk(3, Ok(4)), NonBlocking::Success(4)));
    assert_eq!(session.last_used(), 3);
    assert!(matches!(session.write_chunk(4, Ok(0)), NonBlocking::Success(0)));
    assert!(matches!(session.write_chunk(5, Err(failure(true, "x"))), NonBlocking::WouldBlock));
    assert!(matches!(
        session.write_chunk(6, Err(failure(false, "broken pipe"))),
        NonBlocking::Error(f) if f.message == "broken pipe"
    ));
    assert_eq!(session.last_used(), 6);
    assert!(!session.has_sent_eof());
    assert!(!session.has_received_eof());
}

#[test]
fn flags_once_set_stay_set() {
    let mut session = Session::connect("abc".to_owned(), (), 0);
    session.send_eof(1);
    assert!(session.has_sent_eof());
    session.read_chunk(2, Ok(b"x".to_vec()));
    session.write_chunk(3, Ok(1));
    session.read_chunk(4, Err(failure(true, "")));
    session.send_eof(5);
    assert!(session.has_sent_eof());
    assert!(!session.is_done());
    session.read_chunk(6, Ok(Vec::new()));
    assert!(session.has_received_eof());
    session.read_chunk(7, Ok(b"late".to_vec()));
    session.write_chunk(8, Err(failure(false, "x")));
    assert!(session.has_received_eof());
    assert!(session.has_sent_eof());
    assert!(session.is_done());
    assert_eq!(session.id(), "abc");
}

#[test]
fn apply_does_what_the_single_calls_do() {
    let mut session = Session::connect("abc".to_owned(), (), 0);
    let reply = session.apply(1, SessionCall::Write { count: Ok(3) });
    assert!(matches!(reply, SessionReply::Written(NonBlocking::Success(3))));
    let reply = session.apply(2, SessionCall::Read { data: Ok(Vec::new()) });
    assert!(matches!(reply, SessionReply::Read(NonBlocking::Success(d)) if d.is_empty()));
    let reply = session.apply(3, SessionCall::SendEof);
    assert!(matches!(reply, SessionReply::Closed));
    assert!(session.is_done());
    assert_eq!(session.last_used(), 3);
}

#[test]
fn classify_tells_would_block_apart() {
    assert!(matches!(classify(Ok(5u8)), NonBlocking::Success(5u8)));
    assert!(matches!(classify::<u8>(Err(failure(true, "a"))), NonBlocking::WouldBlock));
    assert!(matches!(classify::<u8>(Err(failure(false, "a"))), NonBlocking::Error(_)));
}

#[test]
fn session_times_out_after_more_than_thirty_seconds() {
    let session = Session::connect("abc".to_owned(), (), 100);
    assert!(!session.is_timed_out(100));
    assert!(!session.is_timed_out(100 + 30 * SECOND));
    assert!(session.is_timed_out(101 + 30 * SECOND));
    assert!(session.is_timed_out(100 + 31 * SECOND));
    assert!(!session.is_timed_out(0));
    assert!(session.is_timed_out(u128::MAX));
}

#[test]
fn use_puts_the_timeout_off() {
    let mut session = Session::connect("abc".to_owned(), (), 0);
    session.write_chunk(20 * SECOND, Ok(1));
    assert!(!session.is_timed_out(31 * SECOND));
    assert!(session.is_timed_out(51 * SECOND));
}

fn table_of(ids: &[&str]) -> SessionTable<usize> {
    let mut table = SessionTable::new();
    for (i, id) in ids.iter().enumerate() {
        table.insert(Session::connect((*id).to_owned(), i, 0));
    }
    table
}

#[test]
fn table_finds_sessions_by_id() {
    let table = table_of(&["a", "b", "c"]);
    assert_eq!(table.len(), 3);
    assert_eq!(table.position("a"), Some(0));
    assert_eq!(table.position("c"), Some(2));
    assert_eq!(table.position("d"), None);
    assert!(table.contains("b"));
    assert!(!table.contains(""));
    assert_eq!(table.stream("b"), Some(&1));
    assert_eq!(table.stream("x"), None);
}

#[test]
fn empty_table_has_no_session() {
    let mut table: SessionTable<u8> = SessionTable::new();
    assert_eq!(table.len(), 0);
    assert!(table.with_session("a", 0, SessionCall::SendEof).is_err());
    assert!(table.sweep(1000 * SECOND).is_empty());
}

#[test]
fn with_session_fails_for_an_unknown_id() {
    let mut table = table_of(&["a", "b"]);
    assert!(table.with_session("zz", 5, SessionCall::SendEof).is_err());
    assert_eq!(table.len(), 2);
}

#[test]
fn with_session_keeps_a_session_that_is_not_done() {
    let mut table = table_of(&["a", "b"]);
    let reply = table.with_session("b", 5, SessionCall::SendEof);
    assert!(matches!(reply, Ok(SessionReply::Closed)));
    assert!(table.contains("b"));
    assert_eq!(table.len(), 2);
    let reply = table.with_session("b", 6, SessionCall::Write { count: Ok(2) });
    assert!(matches!(reply, Ok(SessionReply::Written(NonBlocking::Success(2)))));
    assert!(table.contains("b"));
}

#[test]
fn with_session_removes_a_session_that_is_done() {
    let mut table = table_of(&["a", "b", "c"]);
    assert!(table.with_session("b", 5, SessionCall::SendEof).is_ok());
    let reply = table.with_session("b", 6, SessionCall::Read { data: Ok(Vec::new()) });
    assert!(matches!(reply, Ok(SessionReply::Read(NonBlocking::Success(d))) if d.is_empty()));
    assert!(!table.contains("b"));
    assert_eq!(table.len(), 2);
    assert_eq!(table.stream("a"), Some(&0));
    assert_eq!(table.stream("c"), Some(&2));
    assert!(table.with_session("b", 7, SessionCall::SendEof).is_err());
}

#[test]
fn with_session_works_on_the_first_of_two_equal_ids() {
    let mut table = table_of(&["a", "a"]);
    assert!(table.with_session("a", 5, SessionCall::SendEof).is_ok());
    assert!(table.with_session("a", 6, SessionCall::Read { data: Ok(Vec::new()) }).is_ok());
    assert_eq!(table.len(), 1);
    assert_eq!(table.stream("a"), Some(&1));
}

#[test]
fn sweep_removes_what_has_timed_out() {
    let mut table = SessionTable::new();
    table.insert(Session::connect("old1".to_owned(), 1u8, 0));
    table.insert(Session::connect("new1".to_owned(), 2u8, 20 * SECOND));
    table.insert(Session::connect("old2".to_owned(), 3u8, SECOND));
    table.insert(Session::connect("new2".to_owned(), 4u8, 30 * SECOND));
    let removed = table.sweep(32 * SECOND);
    let ids: Vec<&str> = removed.iter().map(|s| s.id()).collect();
    assert_eq!(ids, vec!["old2", "old1"]);
    assert_eq!(table.len(), 2);
    assert_eq!(table.position("new1"), Some(0));
    assert_eq!(table.position("new2"), Some(1));
    assert!(table.sweep(32 * SECOND).is_empty());
}

#[test]
fn sweep_leaves_a_session_at_exactly_thirty_seconds() {
    let mut table = SessionTable::new();
    table.insert(Session::connect("a".to_owned(), (), 0));
    assert!(table.sweep(30 * SECOND).is_empty());
    assert_eq!(table.len(), 1);
    assert_eq!(table.sweep(30 * SECOND + 1).len(), 1);
    assert_eq!(table.len(), 0);
}
