//! Who may read what.
//!
//! The decision takes the viewer, the owner of the content and the owner's
//! policy. It looks at the relationship of the two accounts only when the
//! policy is `Friends` and the viewer is not the owner; every other case is
//! settled without it.

use vstd::prelude::*;
use crate::relationships::{friends_in, Relations};
use crate::store::RelationshipStore;
use crate::visibility::Visibility;

verus! {

/// Whether the decision for `viewer` on content of `owner` under `policy`
/// depends on the two being friends.
pub open spec fn needs_friendship_spec(viewer: i64, owner: i64, policy: Visibility) -> bool {
    viewer != owner && policy == Visibility::Friends
}

/// The decision, given whether the two accounts are friends.
pub open spec fn resolve_spec(viewer: i64, owner: i64, policy: Visibility, friends: bool) -> bool {
    if viewer == owner {
        true
    } else {
        match policy {
            Visibility::Public => true,
            Visibility::Private => false,
            Visibility::Friends => friends,
        }
    }
}

/// Whether `viewer` may read content of `owner` that stands under `policy`.
pub open spec fn can_view_spec(
    relations: Relations,
    viewer: i64,
    owner: i64,
    policy: Visibility,
) -> bool {
    resolve_spec(viewer, owner, policy, friends_in(relations, viewer, owner))
}

/// Whether the relationship of `viewer` and `owner` has to be looked up
/// before `resolve` can decide.
pub fn needs_friendship(viewer: i64, owner: i64, policy: Visibility) -> (needed: bool)
    ensures
        needed == needs_friendship_spec(viewer, owner, policy),
{
    viewer != owner && policy == Visibility::Friends
}

/// Decides from plain values. `friends` is read only where
/// `needs_friendship` holds.
pub fn resolve(viewer: i64, owner: i64, policy: Visibility, friends: bool) -> (allowed: bool)
    ensures
        allowed == resolve_spec(viewer, owner, policy, friends),
{
    if viewer == owner {
        return true;
    }
    match policy {
        Visibility::Public => true,
        Visibility::Private => false,
        Visibility::Friends => friends,
    }
}

/// Decides who may read what against the relationships of a store.
pub struct AccessResolver<'a> {
    store: &'a RelationshipStore,
}

impl<'a> AccessResolver<'a> {
    /// The relationships that the resolver consults.
    pub closed spec fn relations(&self) -> Relations {
        self.store@
    }

    pub fn new(store: &'a RelationshipStore) -> (resolver: Self)
        ensures
            resolver.relations() == store@,
    {
        AccessResolver { store }
    }

    /// Whether `viewer` may read a journal or profile of `owner` that stands
    /// under `policy`.
    pub fn can_view(&self, viewer: i64, owner: i64, policy: Visibility) -> (allowed: bool)
        ensures
            allowed == can_view_spec(self.relations(), viewer, owner, policy),
    {
        let friends = if needs_friendship(viewer, owner, policy) {
            self.store.are_friends(viewer, owner)
        } else {
            false
        };
        resolve(viewer, owner, policy, friends)
    }

    /// Whether `viewer` may read an entry of `author`. The policy is that of
    /// the journal that holds the entry, which the caller has looked up.
    pub fn can_view_entry(&self, viewer: i64, author: i64, journal_policy: Visibility) -> (allowed:
        bool)
        ensures
            allowed == can_view_spec(self.relations(), viewer, author, journal_policy),
    {
        self.can_view(viewer, author, journal_policy)
    }
}

/// Owners read their own content under every policy.
pub proof fn owner_always_views(relations: Relations, owner: i64, policy: Visibility)
    ensures
        can_view_spec(relations, owner, owner, policy),
{
}

/// Private content is read by nobody but its owner, whatever the
/// relationship of the two accounts.
pub proof fn private_hides_from_others(relations: Relations, viewer: i64, owner: i64)
    requires
        viewer != owner,
    ensures
        !can_view_spec(relations, viewer, owner, Visibility::Private),
{
}

/// Content for friends is read by another account exactly if it is a friend
/// of the owner.
pub proof fn friends_policy_follows_friendship(relations: Relations, viewer: i64, owner: i64)
    requires
        viewer != owner,
    ensures
        can_view_spec(relations, viewer, owner, Visibility::Friends) == friends_in(
            relations,
            viewer,
            owner,
        ),
{
}

/// Public content is read by everyone.
pub proof fn public_shows_to_all(relations: Relations, viewer: i64, owner: i64)
    ensures
        can_view_spec(relations, viewer, owner, Visibility::Public),
{
}

/// Where no lookup is needed the decision is the same under any
/// relationships, and what is handed to `resolve` as `friends` is not read.
pub proof fn decision_without_lookup(
    some: Relations,
    other: Relations,
    viewer: i64,
    owner: i64,
    policy: Visibility,
    friends: bool,
)
    requires
        !needs_friendship_spec(viewer, owner, policy),
    ensures
        can_view_spec(some, viewer, owner, policy) == can_view_spec(other, viewer, owner, policy),
        resolve_spec(viewer, owner, policy, friends) == can_view_spec(
            some,
            viewer,
            owner,
            policy,
        ),
{
}

} // verus!
