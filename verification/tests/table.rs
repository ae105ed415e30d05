use dns_relay::addr::Addr;
use dns_relay::table::{CorrelationTable, PendingQuery};

// Insert followed immediately by take yields exactly the recorded client
// address and original id; a second take of the same id finds nothing.
#[test]
fn insert_then_take_returns_entry() {
    let mut t = CorrelationTable::new();
    let client = Addr::new(10, 0, 0, 1, 5000);
    t.insert(7, client, 0x1234, 0);
    assert_eq!(
        t.take_by_assigned_id(7),
        Some(PendingQuery { assigned_id: 7, client, original_id: 0x1234, created_at: 0 })
    );
    assert_eq!(t.take_by_assigned_id(7), None);
}

// A transaction id that was never inserted is reported as not found.
#[test]
fn take_never_inserted_is_not_found() {
    let mut t = CorrelationTable::new();
    assert_eq!(t.take_by_assigned_id(0xBEEF), None);
    assert_eq!(t.len(), 0);
}

#[test]
fn contains_and_len() {
    let mut t = CorrelationTable::new();
    assert!(!t.contains(1));
    t.insert(1, Addr::new(127, 0, 0, 1, 1000), 42, 0);
    assert!(t.contains(1));
    assert_eq!(t.len(), 1);
    // a second client may reuse the same original id under a distinct
    // assigned id
    t.insert(2, Addr::new(127, 0, 0, 1, 1001), 42, 0);
    assert_eq!(t.len(), 2);
    assert_eq!(t.take_by_assigned_id(1).unwrap().original_id, 42);
    assert_eq!(t.len(), 1);
    assert!(t.contains(2));
}

// Expiry removes exactly the entries recorded before the cutoff.
#[test]
fn expiry_reclaims_old_entries() {
    let mut t = CorrelationTable::new();
    t.insert(1, Addr::new(10, 0, 0, 1, 5000), 0x0101, 0);
    t.insert(2, Addr::new(10, 0, 0, 2, 5001), 0x0202, 10);
    t.expire_older_than(5);
    assert!(!t.contains(1));
    assert!(t.contains(2));
    assert_eq!(t.len(), 1);
    // at-cutoff entries survive
    t.expire_older_than(10);
    assert!(t.contains(2));
}
