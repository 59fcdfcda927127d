//! Pool sizing, round-robin endpoint choice, and acquisition clean-up.
use reql_driver::connection::{Connection, ConnectionId};
use reql_driver::errors::{Error, ErrorKind};
use reql_driver::pool::{pick_endpoint, ConnectionCustomizer, PoolOptions};
use reql_driver::query::db_list;
use reql_driver::wire::GlobalOptions;

#[test]
fn default_pool_sizing() {
    let options = PoolOptions::default();
    assert_eq!(options.max_size, 32);
    assert_eq!(options.min_idle, Some(8));
}

#[test]
fn new_connections_round_robin_across_endpoints() {
    let picks: Vec<usize> = (0u64..6).map(|count| pick_endpoint(count, 2)).collect();
    assert_eq!(picks, vec![0, 1, 0, 1, 0, 1]);
    let picks: Vec<usize> = (0u64..5).map(|count| pick_endpoint(count, 3)).collect();
    assert_eq!(picks, vec![0, 1, 2, 0, 1]);
    assert_eq!(pick_endpoint(7, 1), 0);
}

#[test]
fn every_error_kind_is_observable() {
    assert!(matches!(
        Error::from_kind(ErrorKind::NoEndpoints).kind(),
        ErrorKind::NoEndpoints
    ));
    assert!(matches!(
        Error::from_kind(ErrorKind::AddressResolution).kind(),
        ErrorKind::AddressResolution
    ));
    assert!(matches!(
        Error::from_kind(ErrorKind::IteratorTimeout).kind(),
        ErrorKind::IteratorTimeout
    ));
    let kind = ErrorKind::Connection(String::from("lost"));
    assert!(matches!(Error::from_kind(kind).kind(), ErrorKind::Connection(m) if m == "lost"));
}

#[test]
fn cause_chains_accumulate_in_order() {
    let err = Error::from_kind(ErrorKind::Connection(String::from("lost")))
        .with_context("while reading the header")
        .with_context("during a batch fetch");
    assert!(matches!(err.kind(), ErrorKind::Connection(m) if m == "lost"));
    let notes = err.context();
    assert_eq!(notes.len(), 2);
    assert_eq!(notes[0].as_str(), "while reading the header");
    assert_eq!(notes[1].as_str(), "during a batch fetch");
}

#[test]
fn acquisition_invalidates_the_connection() {
    let mut conn = Connection::new(ConnectionId::new(9), GlobalOptions::default());
    let (mut c, _) = conn.run_cursor(db_list()).unwrap();
    let generation = conn.generation();
    ConnectionCustomizer.on_acquire(&mut conn);
    assert_eq!(conn.generation(), generation + 1);
    let err = conn.next_batch_step(&mut c).unwrap_err();
    assert!(matches!(err.kind(), ErrorKind::ReadFromClosedCursor));
}
