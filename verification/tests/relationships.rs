use valyou::errors::RelationError;
use valyou::pair::{canonicalize, get_relation_pk};
use valyou::status::RelationStatus;
use valyou::storage::{
    conclude, plan_accept_request, plan_deny_request, plan_remove_friendship, plan_send_request,
    report_of, WriteIntent, WriteReport,
};
use valyou::errors::{DbErrorKind, DbFailure};
use valyou::store::RelationshipStore;

#[test]
fn canonicalize_orders_ascending() {
    assert_eq!(canonicalize(3, 7), Ok((3, 7)));
    assert_eq!(canonicalize(7, 3), Ok((3, 7)));
    assert_eq!(canonicalize(-5, 2), Ok((-5, 2)));
    assert_eq!(canonicalize(i64::MAX, i64::MIN), Ok((i64::MIN, i64::MAX)));
}

#[test]
fn canonicalize_is_the_same_in_both_orders() {
    for (a, b) in [(1, 2), (2, 1), (0, 99), (-3, -4), (10, i64::MAX)] {
        let key = canonicalize(a, b).unwrap();
        assert_eq!(key, canonicalize(b, a).unwrap());
        assert!(key.0 < key.1);
    }
}

#[test]
fn canonicalize_rejects_a_self_pair() {
    assert_eq!(canonicalize(4, 4), Err(RelationError::InvalidPair));
    assert_eq!(canonicalize(0, 0), Err(RelationError::InvalidPair));
}

#[test]
fn relation_pk_orders_without_judging() {
    assert_eq!(get_relation_pk(9, 1), (1, 9));
    assert_eq!(get_relation_pk(1, 9), (1, 9));
    assert_eq!(get_relation_pk(5, 5), (5, 5));
}

#[test]
fn request_records_who_asked() {
    let mut store = RelationshipStore::new();
    assert_eq!(store.status_of(1, 2), None);
    assert_eq!(store.send_request(1, 2, 1000), Ok(()));
    assert_eq!(store.status_of(1, 2), Some(RelationStatus::PendingFirstSecond));
    assert_eq!(store.status_of(2, 1), Some(RelationStatus::PendingFirstSecond));

    assert_eq!(store.send_request(9, 4, 1001), Ok(()));
    assert_eq!(store.status_of(4, 9), Some(RelationStatus::PendingSecondFirst));

    let row = store.relationship_of(9, 4).unwrap();
    assert_eq!(row.low_id(), 4);
    assert_eq!(row.high_id(), 9);
    assert_eq!(row.status(), RelationStatus::PendingSecondFirst);
    assert_eq!(row.since(), 1001);
}

#[test]
fn request_to_oneself_is_refused() {
    let mut store = RelationshipStore::new();
    assert_eq!(store.send_request(5, 5, 1), Err(RelationError::SelfRequest));
    assert_eq!(store.status_of(5, 5), None);
    assert_eq!(store.relationship_of(5, 5), None);
}

#[test]
fn crossing_requests_leave_one_pending_record() {
    let mut store = RelationshipStore::new();
    assert_eq!(store.len(), 0);
    assert_eq!(store.send_request(1, 2, 10), Ok(()));
    assert_eq!(store.len(), 1);
    assert_eq!(store.send_request(2, 1, 11), Err(RelationError::AlreadyExists));
    assert_eq!(store.len(), 1);
    assert_eq!(store.status_of(1, 2), Some(RelationStatus::PendingFirstSecond));
    let row = store.relationship_of(2, 1).unwrap();
    assert_eq!(row.since(), 10);
    assert!(!store.are_friends(1, 2));
}

#[test]
fn repeated_request_is_refused() {
    let mut store = RelationshipStore::new();
    assert_eq!(store.send_request(1, 2, 10), Ok(()));
    assert_eq!(store.send_request(1, 2, 11), Err(RelationError::AlreadyExists));
    assert_eq!(store.accept_request(2, 1, 12), Ok(()));
    assert_eq!(store.send_request(1, 2, 13), Err(RelationError::AlreadyExists));
    assert_eq!(store.send_request(2, 1, 14), Err(RelationError::AlreadyExists));
    assert!(store.are_friends(1, 2));
}

#[test]
fn accepted_request_makes_friends_both_ways() {
    let mut store = RelationshipStore::new();
    assert_eq!(store.send_request(7, 3, 100), Ok(()));
    assert_eq!(store.accept_request(3, 7, 200), Ok(()));
    assert!(store.are_friends(7, 3));
    assert!(store.are_friends(3, 7));
    assert_eq!(store.status_of(3, 7), Some(RelationStatus::Friends));
    assert_eq!(store.relationship_of(3, 7).unwrap().since(), 200);
    assert_eq!(store.accept_request(3, 7, 300), Err(RelationError::NoSuchRequest));
    assert_eq!(store.relationship_of(3, 7).unwrap().since(), 200);
}

#[test]
fn requester_cannot_accept_its_own_request() {
    let mut store = RelationshipStore::new();
    assert_eq!(store.send_request(1, 2, 10), Ok(()));
    assert_eq!(store.accept_request(1, 2, 11), Err(RelationError::NoSuchRequest));
    assert_eq!(store.status_of(1, 2), Some(RelationStatus::PendingFirstSecond));
    assert!(!store.are_friends(1, 2));

    assert_eq!(store.send_request(8, 6, 12), Ok(()));
    assert_eq!(store.accept_request(8, 6, 13), Err(RelationError::NoSuchRequest));
    assert_eq!(store.status_of(6, 8), Some(RelationStatus::PendingSecondFirst));
}

#[test]
fn accept_without_request_is_refused() {
    let mut store = RelationshipStore::new();
    assert_eq!(store.accept_request(1, 2, 10), Err(RelationError::NoSuchRequest));
    assert_eq!(store.accept_request(4, 4, 10), Err(RelationError::InvalidPair));
    assert_eq!(store.status_of(1, 2), None);
}

#[test]
fn denied_request_is_gone() {
    let mut store = RelationshipStore::new();
    assert_eq!(store.send_request(1, 2, 10), Ok(()));
    assert_eq!(store.deny_request(1, 2), Err(RelationError::NoSuchRequest));
    assert_eq!(store.deny_request(2, 1), Ok(()));
    assert_eq!(store.status_of(1, 2), None);
    assert_eq!(store.deny_request(2, 1), Err(RelationError::NoSuchRequest));
    assert_eq!(store.accept_request(2, 1, 11), Err(RelationError::NoSuchRequest));
    assert_eq!(store.deny_request(3, 3), Err(RelationError::InvalidPair));
    assert_eq!(store.send_request(2, 1, 12), Ok(()));
    assert_eq!(store.status_of(1, 2), Some(RelationStatus::PendingSecondFirst));
}

#[test]
fn deny_does_not_end_a_friendship() {
    let mut store = RelationshipStore::new();
    assert_eq!(store.send_request(1, 2, 10), Ok(()));
    assert_eq!(store.accept_request(2, 1, 11), Ok(()));
    assert_eq!(store.deny_request(2, 1), Err(RelationError::NoSuchRequest));
    assert_eq!(store.deny_request(1, 2), Err(RelationError::NoSuchRequest));
    assert!(store.are_friends(1, 2));
}

#[test]
fn removed_friendship_is_gone() {
    let mut store = RelationshipStore::new();
    assert_eq!(store.send_request(1, 2, 10), Ok(()));
    assert_eq!(store.accept_request(2, 1, 11), Ok(()));
    assert_eq!(store.remove_friendship(1, 2), Ok(()));
    assert!(!store.are_friends(1, 2));
    assert!(!store.are_friends(2, 1));
    assert_eq!(store.status_of(1, 2), None);
    assert_eq!(store.remove_friendship(1, 2), Err(RelationError::NotFriends));
    assert_eq!(store.remove_friendship(2, 1), Err(RelationError::NotFriends));
}

#[test]
fn remove_does_not_cancel_a_pending_request() {
    let mut store = RelationshipStore::new();
    assert_eq!(store.send_request(1, 2, 10), Ok(()));
    assert_eq!(store.remove_friendship(1, 2), Err(RelationError::NotFriends));
    assert_eq!(store.remove_friendship(2, 1), Err(RelationError::NotFriends));
    assert_eq!(store.status_of(1, 2), Some(RelationStatus::PendingFirstSecond));
    assert_eq!(store.remove_friendship(6, 6), Err(RelationError::InvalidPair));
}

#[test]
fn pairs_do_not_disturb_each_other() {
    let mut store = RelationshipStore::new();
    assert_eq!(store.send_request(1, 2, 10), Ok(()));
    assert_eq!(store.send_request(1, 3, 11), Ok(()));
    assert_eq!(store.send_request(3, 2, 12), Ok(()));
    assert_eq!(store.accept_request(3, 1, 13), Ok(()));
    assert_eq!(store.deny_request(2, 1), Ok(()));
    assert_eq!(store.status_of(1, 2), None);
    assert_eq!(store.status_of(1, 3), Some(RelationStatus::Friends));
    assert_eq!(store.status_of(2, 3), Some(RelationStatus::PendingSecondFirst));
    assert_eq!(store.remove_friendship(3, 1), Ok(()));
    assert_eq!(store.status_of(2, 3), Some(RelationStatus::PendingSecondFirst));
    assert_eq!(store.accept_request(2, 3, 14), Ok(()));
    assert!(store.are_friends(3, 2));
    assert!(!store.are_friends(1, 3));
    assert_eq!(store.len(), 1);
}

#[test]
fn statements_are_planned_on_the_canonical_pair() {
    assert_eq!(
        plan_send_request(7, 3),
        Ok(WriteIntent::Insert { low: 3, high: 7, status: RelationStatus::PendingSecondFirst })
    );
    assert_eq!(
        plan_send_request(3, 7),
        Ok(WriteIntent::Insert { low: 3, high: 7, status: RelationStatus::PendingFirstSecond })
    );
    assert_eq!(plan_send_request(3, 3), Err(RelationError::SelfRequest));
    assert_eq!(
        plan_accept_request(3, 7),
        Ok(WriteIntent::UpdateIf {
            low: 3,
            high: 7,
            expected: RelationStatus::PendingSecondFirst,
            status: RelationStatus::Friends,
        })
    );
    assert_eq!(
        plan_accept_request(7, 3),
        Ok(WriteIntent::UpdateIf {
            low: 3,
            high: 7,
            expected: RelationStatus::PendingFirstSecond,
            status: RelationStatus::Friends,
        })
    );
    assert_eq!(plan_accept_request(7, 7), Err(RelationError::InvalidPair));
    assert_eq!(
        plan_deny_request(7, 3),
        Ok(WriteIntent::DeleteIf { low: 3, high: 7, expected: RelationStatus::PendingFirstSecond })
    );
    assert_eq!(plan_deny_request(1, 1), Err(RelationError::InvalidPair));
    assert_eq!(
        plan_remove_friendship(7, 3),
        Ok(WriteIntent::DeleteIf { low: 3, high: 7, expected: RelationStatus::Friends })
    );
    assert_eq!(plan_remove_friendship(2, 2), Err(RelationError::InvalidPair));
}

#[test]
fn reports_are_concluded_by_statement() {
    let insert = plan_send_request(1, 2).unwrap();
    let update = plan_accept_request(2, 1).unwrap();
    let deny = plan_deny_request(2, 1).unwrap();
    let remove = plan_remove_friendship(2, 1).unwrap();

    assert_eq!(conclude(&insert, WriteReport::Changed(1)), Ok(()));
    assert_eq!(conclude(&insert, WriteReport::Changed(0)), Err(RelationError::AlreadyExists));
    assert_eq!(conclude(&insert, WriteReport::Duplicate), Err(RelationError::AlreadyExists));
    assert_eq!(conclude(&insert, WriteReport::Unavailable), Err(RelationError::StorageUnavailable));

    assert_eq!(conclude(&update, WriteReport::Changed(1)), Ok(()));
    assert_eq!(conclude(&update, WriteReport::Changed(0)), Err(RelationError::NoSuchRequest));
    assert_eq!(conclude(&update, WriteReport::Unavailable), Err(RelationError::StorageUnavailable));

    assert_eq!(conclude(&deny, WriteReport::Changed(1)), Ok(()));
    assert_eq!(conclude(&deny, WriteReport::Changed(0)), Err(RelationError::NoSuchRequest));

    assert_eq!(conclude(&remove, WriteReport::Changed(2)), Ok(()));
    assert_eq!(conclude(&remove, WriteReport::Changed(0)), Err(RelationError::NotFriends));
    assert_eq!(conclude(&remove, WriteReport::Unavailable), Err(RelationError::StorageUnavailable));
}

#[test]
fn query_outcomes_are_read_as_reports() {
    assert_eq!(report_of(Ok(1)), WriteReport::Changed(1));
    assert_eq!(report_of(Ok(0)), WriteReport::Changed(0));
    let duplicate = DbFailure::Database {
        kind: DbErrorKind::UniqueViolation,
        message: "duplicate key value violates unique constraint".to_string(),
        details: None,
        constraint_name: Some("relations_pkey".to_string()),
    };
    assert_eq!(report_of(Err(duplicate)), WriteReport::Duplicate);
    let foreign = DbFailure::Database {
        kind: DbErrorKind::ForeignKeyViolation,
        message: "no such account".to_string(),
        details: None,
        constraint_name: None,
    };
    assert_eq!(report_of(Err(foreign)), WriteReport::Unavailable);
    assert_eq!(report_of(Err(DbFailure::NotFound)), WriteReport::Unavailable);
    assert_eq!(report_of(Err(DbFailure::Other)), WriteReport::Unavailable);
}

#[test]
fn pending_statuses_by_direction() {
    assert_eq!(RelationStatus::requested_by(1, 2), RelationStatus::PendingFirstSecond);
    assert_eq!(RelationStatus::requested_by(2, 1), RelationStatus::PendingSecondFirst);
    assert_eq!(RelationStatus::awaiting(2, 1), RelationStatus::PendingFirstSecond);
    assert_eq!(RelationStatus::awaiting(1, 2), RelationStatus::PendingSecondFirst);
    assert!(RelationStatus::PendingFirstSecond.is_pending());
    assert!(RelationStatus::PendingSecondFirst.is_pending());
    assert!(!RelationStatus::Friends.is_pending());
    assert!(!RelationStatus::BlockBoth.is_pending());
}

#[test]
fn friends_are_listed_in_ascending_order() {
    let mut store = RelationshipStore::new();
    for other in [9, 3, 7, 1, 12] {
        store.send_request(5, other, 10).unwrap();
    }
    for other in [9, 3, 1, 12] {
        store.accept_request(other, 5, 11).unwrap();
    }
    store.send_request(2, 5, 12).unwrap();
    store.send_request(3, 9, 13).unwrap();
    store.accept_request(9, 3, 14).unwrap();

    assert_eq!(store.friends_of(5), vec![1, 3, 9, 12]);
    assert_eq!(store.friends_of(9), vec![3, 5]);
    assert_eq!(store.friends_of(7), Vec::<i64>::new());
    assert_eq!(store.friends_of(2), Vec::<i64>::new());
    assert_eq!(store.friends_of(100), Vec::<i64>::new());

    store.remove_friendship(5, 3).unwrap();
    assert_eq!(store.friends_of(5), vec![1, 9, 12]);
    assert_eq!(store.friends_of(3), vec![9]);
}

#[test]
fn requests_are_listed_for_their_recipient() {
    let mut store = RelationshipStore::new();
    store.send_request(8, 5, 10).unwrap();
    store.send_request(2, 5, 11).unwrap();
    store.send_request(5, 4, 12).unwrap();
    store.send_request(6, 5, 13).unwrap();
    store.accept_request(5, 6, 14).unwrap();

    assert_eq!(store.requests_for(5), vec![2, 8]);
    assert_eq!(store.requests_for(4), vec![5]);
    assert_eq!(store.requests_for(8), Vec::<i64>::new());
    assert_eq!(store.requests_for(2), Vec::<i64>::new());
    assert_eq!(store.friends_of(5), vec![6]);

    store.deny_request(5, 8).unwrap();
    assert_eq!(store.requests_for(5), vec![2]);
    store.accept_request(5, 2, 15).unwrap();
    assert_eq!(store.requests_for(5), Vec::<i64>::new());
    assert_eq!(store.friends_of(5), vec![2, 6]);
}
