use qp2p::address::{IpAddress, SocketAddress};
use qp2p::pool::{ConnectionPool, DialDecision, RemoveHandle};

fn addr(port: u16) -> SocketAddress {
    SocketAddress { ip: IpAddress::V4([10, 0, 0, 1]), port }
}

#[test]
fn pool_deduplicates_dials() {
    let mut pool: ConnectionPool<&str> = ConnectionPool::new();
    // two callers want the same peer: one dials, the other waits
    assert_eq!(pool.begin_dial(7), DialDecision::Dial);
    assert_eq!(pool.begin_dial(7), DialDecision::Wait);
    // another peer is dialed independently
    assert_eq!(pool.begin_dial(8), DialDecision::Dial);
    assert!(pool.can_insert());
    let handle = pool.finish_dial(7, addr(1), Some("connection to 7"));
    assert_eq!(handle, Some(RemoveHandle { identity: 7, generation: 0 }));
    // both callers end up with the one connection
    let first = pool.begin_dial(7);
    let second = pool.begin_dial(7);
    assert_eq!(first, DialDecision::Reuse(RemoveHandle { identity: 7, generation: 0 }));
    assert_eq!(first, second);
    assert_eq!(pool.get(7), Some((&"connection to 7", RemoveHandle { identity: 7, generation: 0 })));
    assert_eq!(pool.len(), 1);
    // the failed dial of the other peer leaves no entry, and the next caller dials anew
    assert_eq!(pool.finish_dial(8, addr(2), None), None);
    assert!(!pool.has(8));
    assert_eq!(pool.begin_dial(8), DialDecision::Dial);
}

#[test]
fn removal_is_idempotent() {
    let mut pool: ConnectionPool<u32> = ConnectionPool::new();
    let handle = pool.insert(1, addr(1), 100);
    let other = pool.insert(2, addr(2), 200);
    assert!(pool.is_live(&handle));
    assert!(pool.remove(&handle));
    assert!(!pool.is_live(&handle));
    assert!(!pool.has(1));
    assert!(!pool.remove(&handle));
    assert!(!pool.remove(&handle));
    assert!(pool.is_live(&other));
    assert_eq!(pool.len(), 1);
    assert_eq!(pool.get(1), None);
}

#[test]
fn removal_spares_a_newer_connection() {
    let mut pool: ConnectionPool<u32> = ConnectionPool::new();
    let old = pool.insert(5, addr(1), 100);
    let new = pool.insert(5, addr(1), 101);
    assert_eq!(old, RemoveHandle { identity: 5, generation: 0 });
    assert_eq!(new, RemoveHandle { identity: 5, generation: 1 });
    assert_eq!(pool.len(), 1);
    assert!(!pool.is_live(&old));
    assert!(!pool.remove(&old));
    assert_eq!(pool.get(5), Some((&101, new)));
    assert!(pool.remove(&new));
    assert!(!pool.has(5));
    // a removed entry does not come back: the next connection is another entry
    let again = pool.insert(5, addr(1), 102);
    assert_eq!(again.generation, 2);
    assert!(!pool.is_live(&old));
    assert!(!pool.is_live(&new));
    assert!(!pool.remove(&new));
    assert!(pool.has(5));
}

#[test]
fn a_failed_send_evicts_the_connection() {
    let mut pool: ConnectionPool<u32> = ConnectionPool::new();
    let handle = pool.insert(3, addr(1), 1);
    let ok: Result<(), &str> = Ok(());
    assert!(!pool.evict_on_error(&handle, &ok));
    assert!(pool.has(3));
    let failed: Result<(), &str> = Err("stream lost");
    assert!(pool.evict_on_error(&handle, &failed));
    assert!(!pool.has(3));
    assert!(!pool.evict_on_error(&handle, &failed));
    assert_eq!(pool.begin_dial(3), DialDecision::Dial);
}

#[test]
fn an_accepted_connection_enters_while_a_dial_runs() {
    let mut pool: ConnectionPool<u32> = ConnectionPool::new();
    assert_eq!(pool.begin_dial(9), DialDecision::Dial);
    let inbound = pool.insert(9, addr(4), 1);
    assert_eq!(pool.begin_dial(9), DialDecision::Reuse(inbound));
    let dialed = pool.finish_dial(9, addr(4), Some(2)).unwrap();
    assert_eq!(dialed.generation, inbound.generation + 1);
    assert_eq!(pool.len(), 1);
    assert!(!pool.remove(&inbound));
    assert_eq!(pool.get(9), Some((&2, dialed)));
}
