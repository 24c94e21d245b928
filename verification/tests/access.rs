use valyou::access::{needs_friendship, resolve, AccessResolver};
use valyou::store::RelationshipStore;
use valyou::visibility::Visibility;

fn store_with_friends_1_2_and_pending_1_3() -> RelationshipStore {
    let mut store = RelationshipStore::new();
    store.send_request(1, 2, 10).unwrap();
    store.accept_request(2, 1, 11).unwrap();
    store.send_request(1, 3, 12).unwrap();
    store
}

#[test]
fn owner_views_own_content_under_every_policy() {
    let store = store_with_friends_1_2_and_pending_1_3();
    let resolver = AccessResolver::new(&store);
    for policy in [Visibility::Public, Visibility::Private, Visibility::Friends] {
        assert!(resolver.can_view(1, 1, policy));
        assert!(resolver.can_view(42, 42, policy));
        assert!(resolver.can_view_entry(3, 3, policy));
    }
}

#[test]
fn private_content_is_hidden_from_everyone_else() {
    let store = store_with_friends_1_2_and_pending_1_3();
    let resolver = AccessResolver::new(&store);
    assert!(!resolver.can_view(2, 1, Visibility::Private));
    assert!(!resolver.can_view(1, 2, Visibility::Private));
    assert!(!resolver.can_view(3, 1, Visibility::Private));
    assert!(!resolver.can_view(9, 1, Visibility::Private));
}

#[test]
fn friends_content_follows_friendship() {
    let store = store_with_friends_1_2_and_pending_1_3();
    let resolver = AccessResolver::new(&store);
    assert!(resolver.can_view(2, 1, Visibility::Friends));
    assert!(resolver.can_view(1, 2, Visibility::Friends));
    assert!(!resolver.can_view(3, 1, Visibility::Friends));
    assert!(!resolver.can_view(1, 3, Visibility::Friends));
    assert!(!resolver.can_view(9, 1, Visibility::Friends));
    for (x, owner) in [(1, 2), (2, 1), (1, 3), (3, 1), (2, 3), (9, 1)] {
        assert_eq!(resolver.can_view(x, owner, Visibility::Friends), store.are_friends(x, owner));
    }
}

#[test]
fn public_content_is_open_to_all() {
    let store = store_with_friends_1_2_and_pending_1_3();
    let resolver = AccessResolver::new(&store);
    for viewer in [1, 2, 3, 9, -1] {
        assert!(resolver.can_view(viewer, 1, Visibility::Public));
    }
}

#[test]
fn entries_are_read_under_their_journals_policy() {
    let store = store_with_friends_1_2_and_pending_1_3();
    let resolver = AccessResolver::new(&store);
    assert!(resolver.can_view_entry(2, 1, Visibility::Friends));
    assert!(!resolver.can_view_entry(3, 1, Visibility::Friends));
    assert!(!resolver.can_view_entry(2, 1, Visibility::Private));
    assert!(resolver.can_view_entry(3, 1, Visibility::Public));
}

#[test]
fn friendship_ended_closes_friends_content() {
    let mut store = store_with_friends_1_2_and_pending_1_3();
    assert!(AccessResolver::new(&store).can_view(2, 1, Visibility::Friends));
    store.remove_friendship(1, 2).unwrap();
    assert!(!AccessResolver::new(&store).can_view(2, 1, Visibility::Friends));
    assert!(AccessResolver::new(&store).can_view(2, 1, Visibility::Public));
}

#[test]
fn lookup_is_needed_only_for_friends_policy_and_another_viewer() {
    assert!(needs_friendship(1, 2, Visibility::Friends));
    assert!(!needs_friendship(1, 1, Visibility::Friends));
    assert!(!needs_friendship(1, 2, Visibility::Public));
    assert!(!needs_friendship(1, 2, Visibility::Private));
}

#[test]
fn decision_from_plain_values() {
    assert!(resolve(1, 1, Visibility::Private, false));
    assert!(resolve(1, 2, Visibility::Public, false));
    assert!(!resolve(1, 2, Visibility::Private, true));
    assert!(resolve(1, 2, Visibility::Friends, true));
    assert!(!resolve(1, 2, Visibility::Friends, false));
}
