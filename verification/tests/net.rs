use mill_io::net::tcp::{
    handler_reaction, AcceptAction, AcceptOutcome, ConnectionId, ConnectionTable, HandlerReaction,
    LogLevel, Logger, NoOpLogger, ReadAction, ReadOutcome, SetupOutcome,
};

#[test]
fn connection_id_roundtrip() {
    let id = ConnectionId::new(42);
    assert_eq!(id.as_u64(), 42);
    assert_eq!(id, ConnectionId(42));
}

#[test]
fn table_assigns_ids_from_one() {
    let mut t = ConnectionTable::new(None);
    assert_eq!(t.try_accept(), Some(ConnectionId(1)));
    assert_eq!(t.try_accept(), Some(ConnectionId(2)));
    assert_eq!(t.connection_count(), 2);
    assert_eq!(ConnectionTable::token_for(ConnectionId(2)), 2);
}

#[test]
fn table_respects_max_connections() {
    let mut t = ConnectionTable::new(Some(2));
    assert_eq!(t.max_connections(), Some(2));
    let a = t.try_accept().unwrap();
    let _b = t.try_accept().unwrap();
    assert_eq!(t.try_accept(), None);
    assert_eq!(t.connection_count(), 2);
    assert_eq!(t.disconnect(a), Some(1));
    assert_eq!(t.connection_count(), 1);
    // A rejected attempt does not consume an id.
    assert_eq!(t.try_accept(), Some(ConnectionId(3)));
}

#[test]
fn closing_counts_out_once() {
    let mut t = ConnectionTable::new(None);
    let a = t.try_accept().unwrap();
    assert_eq!(t.token(a), Some(1));
    assert_eq!(t.connection_count(), 1);
    assert_eq!(t.disconnect(a), Some(1));
    assert_eq!(t.connection_count(), 0);
    assert_eq!(t.disconnect(a), None);
    assert_eq!(t.connection_count(), 0);
    assert_eq!(t.token(a), None);
}

#[test]
fn count_matches_open_connections() {
    let mut t = ConnectionTable::new(None);
    for _ in 0..5 {
        t.try_accept().unwrap();
    }
    t.disconnect(ConnectionId(2));
    t.on_handler_result(ConnectionId(4), false);
    t.on_setup(ConnectionId(5), SetupOutcome::StreamUnavailable);
    assert_eq!(t.connection_count(), t.ids().len());
    assert_eq!(t.connection_count(), 2);
}

#[test]
fn ids_lists_each_open_connection_once() {
    let mut t = ConnectionTable::new(None);
    for _ in 0..5 {
        t.try_accept().unwrap();
    }
    t.disconnect(ConnectionId(3));
    let mut ids: Vec<u64> = t.ids().iter().map(|c| c.as_u64()).collect();
    ids.sort();
    assert_eq!(ids, vec![1, 2, 4, 5]);
}

#[test]
fn read_outcomes_map_to_actions() {
    assert_eq!(ReadOutcome::Received(0).action(), ReadAction::Disconnect);
    assert_eq!(ReadOutcome::Received(9).action(), ReadAction::Deliver(9));
    assert_eq!(ReadOutcome::WouldBlock.action(), ReadAction::Ignore);
    assert_eq!(ReadOutcome::Failed.action(), ReadAction::ReportAndDisconnect);
}

#[test]
fn noop_logger_accepts_messages() {
    let logger = NoOpLogger::default();
    logger.log(LogLevel::Error, "ignored");
    assert_eq!(LogLevel::Warn, LogLevel::Warn);
}

#[test]
fn accept_loop_decisions() {
    let mut t = ConnectionTable::new(Some(1));
    assert_eq!(t.on_accept(AcceptOutcome::WouldBlock), AcceptAction::Stop);
    assert_eq!(t.on_accept(AcceptOutcome::Failed), AcceptAction::ReportAndStop);
    assert_eq!(t.connection_count(), 0);
    assert_eq!(
        t.on_accept(AcceptOutcome::Accepted),
        AcceptAction::SetUp(ConnectionId(1))
    );
    assert_eq!(t.on_accept(AcceptOutcome::Accepted), AcceptAction::Reject);
    assert_eq!(t.connection_count(), 1);
}

#[test]
fn failed_setup_gives_the_count_back() {
    let mut t = ConnectionTable::new(Some(1));
    let AcceptAction::SetUp(a) = t.on_accept(AcceptOutcome::Accepted) else {
        panic!("expected a set-up")
    };
    assert!(!t.on_setup(a, SetupOutcome::RegistrationFailed));
    assert_eq!(t.connection_count(), 0);
    let AcceptAction::SetUp(b) = t.on_accept(AcceptOutcome::Accepted) else {
        panic!("expected a set-up")
    };
    assert!(!t.on_setup(b, SetupOutcome::EventLoopGone));
    assert_eq!(t.connection_count(), 0);
    let AcceptAction::SetUp(c) = t.on_accept(AcceptOutcome::Accepted) else {
        panic!("expected a set-up")
    };
    assert!(!t.on_setup(c, SetupOutcome::StreamUnavailable));
    assert_eq!(t.connection_count(), 0);
    assert_eq!(t.token(c), None);
}

#[test]
fn connection_lifecycle() {
    let mut t = ConnectionTable::new(None);
    let AcceptAction::SetUp(a) = t.on_accept(AcceptOutcome::Accepted) else {
        panic!("expected a set-up")
    };
    assert!(t.on_setup(a, SetupOutcome::Registered));
    assert_eq!(t.token(a), Some(ConnectionTable::token_for(a)));
    assert_eq!(t.on_handler_result(a, true), None);
    assert_eq!(t.connection_count(), 1);
    assert_eq!(t.disconnect(a), Some(1));
    assert_eq!(t.connection_count(), 0);
}

#[test]
fn failed_connect_handler_drops_connection() {
    let mut t = ConnectionTable::new(None);
    let AcceptAction::SetUp(a) = t.on_accept(AcceptOutcome::Accepted) else {
        panic!("expected a set-up")
    };
    t.on_setup(a, SetupOutcome::Registered);
    assert_eq!(t.on_handler_result(a, false), Some(1));
    assert_eq!(t.on_handler_result(a, false), None);
    assert_eq!(t.connection_count(), 0);
    assert_eq!(t.token(a), None);
}

#[test]
fn failed_handler_closes_connection() {
    assert_eq!(handler_reaction(true), HandlerReaction::Keep);
    assert_eq!(handler_reaction(false), HandlerReaction::ReportAndDisconnect);
}

#[test]
fn registered_setup_after_close_is_not_open() {
    let mut t = ConnectionTable::new(None);
    let a = t.try_accept().unwrap();
    t.disconnect(a);
    assert!(!t.on_setup(a, SetupOutcome::Registered));
    assert_eq!(t.connection_count(), 0);
}
