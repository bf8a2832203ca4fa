use subspace_conduit::sessions::{SessionError, SessionTable};

#[test]
fn sessions_open_find_close() {
    let mut t: SessionTable<u32> = SessionTable::new();
    assert!(!t.contains("a"));
    t.insert("a".to_string(), 1);
    t.insert("b".to_string(), 2);
    assert!(t.contains("a") && t.contains("b"));
    assert_eq!(t.remove("a"), Ok(1));
    assert!(!t.contains("a"));
    assert!(t.contains("b"));
    assert_eq!(t.remove("a"), Err(SessionError::NoSuchSession));
    t.insert("b".to_string(), 5);
    assert_eq!(t.remove("b"), Ok(5));
    assert_eq!(t.remove("b"), Err(SessionError::NoSuchSession));
}

#[test]
fn sessions_are_found_by_id() {
    let mut t: SessionTable<u32> = SessionTable::new();
    assert_eq!(t.get("a"), Err(SessionError::NoSuchSession));
    t.insert("a".to_string(), 1);
    t.insert("b".to_string(), 2);
    assert_eq!(t.get("a"), Ok(&1));
    assert_eq!(t.get("b"), Ok(&2));
    t.insert("a".to_string(), 7);
    assert_eq!(t.get("a"), Ok(&7));
    assert_eq!(t.remove("a"), Ok(7));
    assert_eq!(t.get("a"), Err(SessionError::NoSuchSession));
}
