use valyou::errors::ColumnError;
use valyou::status::RelationStatus;
use valyou::visibility::Visibility;

#[test]
fn status_labels() {
    assert_eq!(RelationStatus::PendingFirstSecond.to_sql(), "pending_first_second");
    assert_eq!(RelationStatus::PendingSecondFirst.to_sql(), "pending_second_first");
    assert_eq!(RelationStatus::Friends.to_sql(), "friends");
    assert_eq!(RelationStatus::BlockFirstSecond.to_sql(), "block_first_second");
    assert_eq!(RelationStatus::BlockSecondFirst.to_sql(), "block_second_first");
    assert_eq!(RelationStatus::BlockBoth.to_sql(), "block_both");
}

#[test]
fn status_is_read_back_from_its_label() {
    for status in [
        RelationStatus::PendingFirstSecond,
        RelationStatus::PendingSecondFirst,
        RelationStatus::Friends,
        RelationStatus::BlockFirstSecond,
        RelationStatus::BlockSecondFirst,
        RelationStatus::BlockBoth,
    ] {
        assert_eq!(RelationStatus::from_sql(Some(status.to_sql().as_bytes())), Ok(status));
    }
    assert_eq!(RelationStatus::from_sql(Some(b"friends")), Ok(RelationStatus::Friends));
}

#[test]
fn status_rejects_other_column_values() {
    assert_eq!(RelationStatus::from_sql(None), Err(ColumnError::UnexpectedNull));
    assert_eq!(RelationStatus::from_sql(Some(b"")), Err(ColumnError::UnrecognizedVariant));
    assert_eq!(RelationStatus::from_sql(Some(b"Friends")), Err(ColumnError::UnrecognizedVariant));
    assert_eq!(RelationStatus::from_sql(Some(b"friend")), Err(ColumnError::UnrecognizedVariant));
    assert_eq!(RelationStatus::from_sql(Some(b"friends ")), Err(ColumnError::UnrecognizedVariant));
    assert_eq!(RelationStatus::from_sql(Some(b"public")), Err(ColumnError::UnrecognizedVariant));
    assert_eq!(
        RelationStatus::from_sql(Some(&[0xff, 0xfe])),
        Err(ColumnError::UnrecognizedVariant)
    );
}

#[test]
fn visibility_labels() {
    assert_eq!(Visibility::Public.to_sql(), "public");
    assert_eq!(Visibility::Private.to_sql(), "private");
    assert_eq!(Visibility::Friends.to_sql(), "friends");
}

#[test]
fn visibility_is_read_back_from_its_label() {
    for policy in [Visibility::Public, Visibility::Private, Visibility::Friends] {
        assert_eq!(Visibility::from_sql(Some(policy.to_sql().as_bytes())), Ok(policy));
    }
}

#[test]
fn visibility_rejects_other_column_values() {
    assert_eq!(Visibility::from_sql(None), Err(ColumnError::UnexpectedNull));
    assert_eq!(Visibility::from_sql(Some(b"")), Err(ColumnError::UnrecognizedVariant));
    assert_eq!(Visibility::from_sql(Some(b"PUBLIC")), Err(ColumnError::UnrecognizedVariant));
    assert_eq!(
        Visibility::from_sql(Some(b"pending_first_second")),
        Err(ColumnError::UnrecognizedVariant)
    );
}

#[test]
fn new_journals_are_private_unless_chosen_otherwise() {
    assert_eq!(Visibility::or_private(None), Visibility::Private);
    assert_eq!(Visibility::or_private(Some(Visibility::Public)), Visibility::Public);
    assert_eq!(Visibility::or_private(Some(Visibility::Friends)), Visibility::Friends);
    assert_eq!(Visibility::or_private(Some(Visibility::Private)), Visibility::Private);
}
