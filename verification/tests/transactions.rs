use bevy_erm::database_entity::{DatabaseEntityId, RequestId};
use bevy_erm::database_resource::DatabaseHandle;

#[test]
fn keys_are_minted_downwards_from_minus_one() {
    let mut db: DatabaseHandle<u8> = DatabaseHandle::new();
    assert_eq!(db.get_key(), DatabaseEntityId(-1));
    assert_eq!(db.get_key(), DatabaseEntityId(-2));
    assert_eq!(db.get_key(), DatabaseEntityId(-3));
    assert!(db.get_key().minted_locally());
}

#[test]
fn a_new_table_holds_no_transaction() {
    let db: DatabaseHandle<String> = DatabaseHandle::new();
    assert!(!db.contains(RequestId::from_raw_parts(0, 0)));
    assert_eq!(db.commit_count(), 0);
}

#[test]
fn each_request_reaches_its_own_transaction() {
    let mut db: DatabaseHandle<String> = DatabaseHandle::new();
    let r1 = db.start_new_transaction("first".to_string());
    let r2 = db.start_new_transaction("second".to_string());
    assert_ne!(r1, r2);
    assert!(db.contains(r1));
    assert!(db.contains(r2));
    assert_eq!(db.get_transaction(r1), "first");
    assert_eq!(db.get_transaction(r2), "second");
}

#[test]
fn transaction_slot_isolation() {
    let mut db: DatabaseHandle<Vec<u32>> = DatabaseHandle::new();
    let r1 = db.start_new_transaction(vec![]);
    let r2 = db.start_new_transaction(vec![7]);
    db.get_transaction_mut(r1).push(1);
    db.get_transaction_mut(r1).push(2);
    assert_eq!(db.get_transaction(r2), &vec![7]);
    let committed = db.commit_transaction(r1);
    assert_eq!(committed, vec![1, 2]);
    assert_eq!(db.commit_count(), 1);
    // the other request is where it was and as it was
    assert!(db.contains(r2));
    assert_eq!(db.get_transaction(r2), &vec![7]);
    // the committed request is dead
    assert!(!db.contains(r1));
}

#[test]
fn a_retired_handle_does_not_come_back_with_its_slot() {
    let mut db: DatabaseHandle<&'static str> = DatabaseHandle::new();
    let r1 = db.start_new_transaction("a");
    assert_eq!(db.commit_transaction(r1), "a");
    let r2 = db.start_new_transaction("b");
    // the slot is used again, under a later generation
    assert_eq!(r2.into_raw_parts().0, r1.into_raw_parts().0);
    assert_ne!(r2.into_raw_parts().1, r1.into_raw_parts().1);
    assert_ne!(r1, r2);
    assert!(!db.contains(r1));
    assert!(db.contains(r2));
    assert_eq!(*db.get_transaction(r2), "b");
}

#[test]
fn the_generation_tag_is_the_count_of_commits() {
    let mut db: DatabaseHandle<u8> = DatabaseHandle::new();
    let r1 = db.start_new_transaction(1);
    let r2 = db.start_new_transaction(2);
    assert_eq!(r1.generation, 0);
    assert_eq!(r2.generation, 0);
    db.commit_transaction(r2);
    db.commit_transaction(r1);
    let r3 = db.start_new_transaction(3);
    assert_eq!(r3.generation, 2);
    assert_eq!(db.commit_count(), 2);
}

#[test]
fn many_requests_can_be_open_at_once() {
    let mut db: DatabaseHandle<usize> = DatabaseHandle::new();
    let mut handles = vec![];
    for i in 0..20 {
        handles.push(db.start_new_transaction(i));
    }
    for (i, r) in handles.iter().enumerate() {
        assert_eq!(*db.get_transaction(*r), i);
    }
    for (i, r) in handles.iter().enumerate() {
        if i % 2 == 0 {
            assert_eq!(db.commit_transaction(*r), i);
        }
    }
    for (i, r) in handles.iter().enumerate() {
        assert_eq!(db.contains(*r), i % 2 == 1);
    }
}

#[test]
fn try_start_without_a_transaction_opens_nothing() {
    let mut db: DatabaseHandle<u8> = DatabaseHandle::new();
    assert_eq!(db.try_start_new_transaction(None), None);
    let r = db.try_start_new_transaction(Some(5)).unwrap();
    assert_eq!(*db.get_transaction(r), 5);
    assert_eq!(r, RequestId::from_raw_parts(0, 0));
}

#[test]
fn minting_keys_leaves_transactions_alone() {
    let mut db: DatabaseHandle<u8> = DatabaseHandle::new();
    let r = db.start_new_transaction(9);
    db.get_key();
    assert_eq!(*db.get_transaction(r), 9);
    db.commit_transaction(r);
    assert_eq!(db.get_key(), DatabaseEntityId(-2));
}
