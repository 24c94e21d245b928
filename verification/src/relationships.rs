//! The relationships between accounts: one record for each unordered pair,
//! and the transitions that friend requests take it through.
//!
//! A pair with no record is absent. A request creates the record in one of
//! the two pending statuses; its recipient turns it into `Friends` or removes
//! it; friends can remove it again. Every operation names the two accounts in
//! any order and works on the canonical key of the pair.

use vstd::prelude::*;
use crate::errors::RelationError;
use crate::pair::{canonical_pair, get_relation_pk};
use crate::status::RelationStatus;

verus! {

/// What is kept for a pair of accounts.
pub struct Standing {
    pub status: RelationStatus,
    /// When the status last changed.
    pub since: i64,
}

/// The relationships as a mathematical map from canonical pair to standing.
/// A pair outside the domain is absent.
pub type Relations = Map<(i64, i64), Standing>;

/// A state of the relationships together with the answer given to the caller.
pub struct Outcome {
    pub relations: Relations,
    pub result: Result<(), RelationError>,
}

/// The status of the pair `a`, `b`, in whichever order they are named.
pub open spec fn status_in(relations: Relations, a: i64, b: i64) -> Option<RelationStatus> {
    if a != b && relations.dom().contains(canonical_pair(a, b)) {
        Some(relations[canonical_pair(a, b)].status)
    } else {
        None
    }
}

pub open spec fn friends_in(relations: Relations, a: i64, b: i64) -> bool {
    status_in(relations, a, b) == Some(RelationStatus::Friends)
}

/// Whether every record is kept under a canonical pair: two distinct
/// accounts, the smaller one first.
pub open spec fn canonical_keys(relations: Relations) -> bool {
    forall|key: (i64, i64)| relations.dom().contains(key) ==> key.0 < key.1
}

/// Whether the status is one of the three blocked ones.
pub open spec fn is_blocked(status: RelationStatus) -> bool {
    status == RelationStatus::BlockFirstSecond || status == RelationStatus::BlockSecondFirst
        || status == RelationStatus::BlockBoth
}

/// Whether a request of `requester` awaits the answer of `recipient`.
pub open spec fn awaits_in(relations: Relations, recipient: i64, requester: i64) -> bool {
    status_in(relations, recipient, requester) == Some(
        RelationStatus::awaiting_spec(recipient, requester),
    )
}

/// `requester` asks `target` for friendship at time `now`.
pub open spec fn send_request_spec(
    relations: Relations,
    requester: i64,
    target: i64,
    now: i64,
) -> Outcome {
    let key = canonical_pair(requester, target);
    if requester == target {
        Outcome { relations, result: Err(RelationError::SelfRequest) }
    } else if relations.dom().contains(key) {
        Outcome { relations, result: Err(RelationError::AlreadyExists) }
    } else {
        Outcome {
            relations: relations.insert(
                key,
                Standing {
                    status: RelationStatus::requested_by_spec(requester, target),
                    since: now,
                },
            ),
            result: Ok(()),
        }
    }
}

/// `accepter` accepts the request that `requester` sent it.
pub open spec fn accept_request_spec(
    relations: Relations,
    accepter: i64,
    requester: i64,
    now: i64,
) -> Outcome {
    let key = canonical_pair(accepter, requester);
    if accepter == requester {
        Outcome { relations, result: Err(RelationError::InvalidPair) }
    } else if status_in(relations, accepter, requester) == Some(
        RelationStatus::awaiting_spec(accepter, requester),
    ) {
        Outcome {
            relations: relations.insert(
                key,
                Standing { status: RelationStatus::Friends, since: now },
            ),
            result: Ok(()),
        }
    } else {
        Outcome { relations, result: Err(RelationError::NoSuchRequest) }
    }
}

/// `decliner` turns down the request that `requester` sent it.
pub open spec fn deny_request_spec(relations: Relations, decliner: i64, requester: i64) -> Outcome {
    let key = canonical_pair(decliner, requester);
    if decliner == requester {
        Outcome { relations, result: Err(RelationError::InvalidPair) }
    } else if status_in(relations, decliner, requester) == Some(
        RelationStatus::awaiting_spec(decliner, requester),
    ) {
        Outcome { relations: relations.remove(key), result: Ok(()) }
    } else {
        Outcome { relations, result: Err(RelationError::NoSuchRequest) }
    }
}

/// The friendship of `a` and `b` is ended.
pub open spec fn remove_friendship_spec(relations: Relations, a: i64, b: i64) -> Outcome {
    let key = canonical_pair(a, b);
    if a == b {
        Outcome { relations, result: Err(RelationError::InvalidPair) }
    } else if friends_in(relations, a, b) {
        Outcome { relations: relations.remove(key), result: Ok(()) }
    } else {
        Outcome { relations, result: Err(RelationError::NotFriends) }
    }
}

/// The status of a pair does not depend on the order in which its accounts
/// are named; in particular friendship is mutual.
pub proof fn status_ignores_order(relations: Relations, a: i64, b: i64)
    ensures
        status_in(relations, a, b) == status_in(relations, b, a),
        friends_in(relations, a, b) == friends_in(relations, b, a),
        status_in(relations, a, a) is None,
{
}

/// When `a` has asked `b`, a request of `b` to `a` right after it is refused
/// with `AlreadyExists` and changes nothing: it is neither stored beside the
/// first nor taken as an acceptance. If the first request was granted, the
/// pair then has exactly the one record that it created, pending from `a` to
/// `b`; every other pair is as it was, and there is one record more than
/// before.
pub proof fn crossing_requests_leave_one_record(
    relations: Relations,
    a: i64,
    b: i64,
    first_at: i64,
    second_at: i64,
)
    ensures
        ({
            let first = send_request_spec(relations, a, b, first_at);
            let second = send_request_spec(first.relations, b, a, second_at);
            let key = canonical_pair(a, b);
            &&& a != b ==> second.result == Err::<(), RelationError>(RelationError::AlreadyExists)
            &&& second.relations == first.relations
            &&& first.result is Ok ==> {
                &&& second.relations == relations.insert(
                    key,
                    Standing {
                        status: RelationStatus::requested_by_spec(a, b),
                        since: first_at,
                    },
                )
                &&& !relations.dom().contains(key)
                &&& status_in(second.relations, a, b) == Some(
                    RelationStatus::requested_by_spec(a, b),
                )
                &&& RelationStatus::requested_by_spec(a, b).is_pending_spec()
                &&& relations.dom().finite() ==> second.relations.dom().len()
                    == relations.dom().len() + 1
            }
        }),
{
}

/// A request of `a` to `b` that `b` accepts makes the two friends, seen from
/// either side, and `b` cannot accept it a second time.
pub proof fn accepted_request_makes_friends(
    relations: Relations,
    a: i64,
    b: i64,
    sent_at: i64,
    accepted_at: i64,
    again_at: i64,
)
    requires
        send_request_spec(relations, a, b, sent_at).result is Ok,
    ensures
        ({
            let sent = send_request_spec(relations, a, b, sent_at);
            let accepted = accept_request_spec(sent.relations, b, a, accepted_at);
            let again = accept_request_spec(accepted.relations, b, a, again_at);
            &&& accepted.result is Ok
            &&& friends_in(accepted.relations, a, b)
            &&& friends_in(accepted.relations, b, a)
            &&& again.result == Err::<(), RelationError>(RelationError::NoSuchRequest)
            &&& again.relations == accepted.relations
        }),
{
}

/// The account that sent a request cannot accept it itself: the attempt is
/// refused with `NoSuchRequest` and the request stays pending.
pub proof fn requester_cannot_accept_own_request(
    relations: Relations,
    a: i64,
    b: i64,
    sent_at: i64,
    accepted_at: i64,
)
    requires
        send_request_spec(relations, a, b, sent_at).result is Ok,
    ensures
        ({
            let sent = send_request_spec(relations, a, b, sent_at);
            let accepted = accept_request_spec(sent.relations, a, b, accepted_at);
            &&& accepted.result == Err::<(), RelationError>(RelationError::NoSuchRequest)
            &&& accepted.relations == sent.relations
            &&& !friends_in(accepted.relations, a, b)
        }),
{
}

/// Removing the friendship of two friends succeeds and leaves the pair
/// absent; removing it again is refused with `NotFriends`.
pub proof fn removed_friendship_is_gone(relations: Relations, a: i64, b: i64)
    requires
        friends_in(relations, a, b),
    ensures
        ({
            let removed = remove_friendship_spec(relations, a, b);
            let again = remove_friendship_spec(removed.relations, a, b);
            &&& removed.result is Ok
            &&& !friends_in(removed.relations, a, b)
            &&& !friends_in(removed.relations, b, a)
            &&& status_in(removed.relations, a, b) is None
            &&& again.result == Err::<(), RelationError>(RelationError::NotFriends)
            &&& again.relations == removed.relations
        }),
{
}

/// A pending request is answered once. After its recipient has accepted or
/// denied it, a further accept or deny of the same request is refused with
/// `NoSuchRequest` and changes nothing, so of two answers that race for one
/// request exactly one succeeds, whichever comes first.
pub proof fn pending_request_is_answered_once(
    relations: Relations,
    recipient: i64,
    requester: i64,
    first_at: i64,
    second_at: i64,
)
    requires
        recipient != requester,
        status_in(relations, recipient, requester) == Some(
            RelationStatus::awaiting_spec(recipient, requester),
        ),
    ensures
        ({
            let accepted = accept_request_spec(relations, recipient, requester, first_at);
            let denied = deny_request_spec(relations, recipient, requester);
            &&& accepted.result is Ok
            &&& denied.result is Ok
            &&& status_in(denied.relations, recipient, requester) is None
            &&& accept_request_spec(accepted.relations, recipient, requester, second_at)
                == (Outcome {
                relations: accepted.relations,
                result: Err(RelationError::NoSuchRequest),
            })
            &&& deny_request_spec(accepted.relations, recipient, requester) == (Outcome {
                relations: accepted.relations,
                result: Err(RelationError::NoSuchRequest),
            })
            &&& accept_request_spec(denied.relations, recipient, requester, second_at)
                == (Outcome {
                relations: denied.relations,
                result: Err(RelationError::NoSuchRequest),
            })
            &&& deny_request_spec(denied.relations, recipient, requester) == (Outcome {
                relations: denied.relations,
                result: Err(RelationError::NoSuchRequest),
            })
        }),
{
}

/// A pending request cannot be withdrawn by ending a friendship: that is
/// refused with `NotFriends` and the request stays.
pub proof fn pending_request_is_not_a_friendship(relations: Relations, a: i64, b: i64)
    requires
        status_in(relations, a, b) matches Some(status) && status.is_pending_spec(),
    ensures
        remove_friendship_spec(relations, a, b) == (Outcome {
            relations,
            result: Err(RelationError::NotFriends),
        }),
{
}

/// Every transition keeps the records under canonical pairs, so that no
/// pair of accounts can come to have two of them.
pub proof fn transitions_keep_keys_canonical(relations: Relations, a: i64, b: i64, now: i64)
    requires
        canonical_keys(relations),
    ensures
        canonical_keys(send_request_spec(relations, a, b, now).relations),
        canonical_keys(accept_request_spec(relations, a, b, now).relations),
        canonical_keys(deny_request_spec(relations, a, b).relations),
        canonical_keys(remove_friendship_spec(relations, a, b).relations),
{
}

/// No transition blocks anyone: a pair that is blocked afterwards was so
/// before, and a blocked pair can be neither befriended nor unblocked by the
/// transitions here.
pub proof fn transitions_never_block(relations: Relations, a: i64, b: i64, now: i64, c: i64, d: i64)
    ensures
        ({
            let before = status_in(relations, c, d);
            let was_blocked = before matches Some(status) && is_blocked(status);
            &&& (status_in(send_request_spec(relations, a, b, now).relations, c, d) matches Some(
                status,
            ) && is_blocked(status)) == was_blocked
            &&& (status_in(
                accept_request_spec(relations, a, b, now).relations,
                c,
                d,
            ) matches Some(status) && is_blocked(status)) == was_blocked
            &&& (status_in(deny_request_spec(relations, a, b).relations, c, d) matches Some(
                status,
            ) && is_blocked(status)) == was_blocked
            &&& (status_in(remove_friendship_spec(relations, a, b).relations, c, d) matches Some(
                status,
            ) && is_blocked(status)) == was_blocked
        }),
{
}

/// A transition on the pair `a`, `b` leaves the status of every other pair
/// as it was, and a refused transition changes nothing at all.
pub proof fn transitions_touch_one_pair(
    relations: Relations,
    a: i64,
    b: i64,
    now: i64,
    c: i64,
    d: i64,
)
    requires
        canonical_pair(c, d) != canonical_pair(a, b),
    ensures
        status_in(send_request_spec(relations, a, b, now).relations, c, d) == status_in(
            relations,
            c,
            d,
        ),
        status_in(accept_request_spec(relations, a, b, now).relations, c, d) == status_in(
            relations,
            c,
            d,
        ),
        status_in(deny_request_spec(relations, a, b).relations, c, d) == status_in(
            relations,
            c,
            d,
        ),
        status_in(remove_friendship_spec(relations, a, b).relations, c, d) == status_in(
            relations,
            c,
            d,
        ),
        send_request_spec(relations, a, b, now).result is Err ==> send_request_spec(
            relations,
            a,
            b,
            now,
        ).relations == relations,
        accept_request_spec(relations, a, b, now).result is Err ==> accept_request_spec(
            relations,
            a,
            b,
            now,
        ).relations == relations,
        deny_request_spec(relations, a, b).result is Err ==> deny_request_spec(
            relations,
            a,
            b,
        ).relations == relations,
        remove_friendship_spec(relations, a, b).result is Err ==> remove_friendship_spec(
            relations,
            a,
            b,
        ).relations == relations,
{
}

/// The record of one pair of accounts. It can only be made for two distinct
/// accounts, and always names the smaller one first.
#[derive(Clone, Copy, Debug, PartialEq, Eq)]
pub struct Relationship {
    low: i64,
    high: i64,
    status: RelationStatus,
    since: i64,
}

impl Relationship {
    #[verifier::type_invariant]
    spec fn ordered(self) -> bool {
        self.low < self.high
    }

    /// The canonical pair that the record belongs to.
    pub closed spec fn key(self) -> (i64, i64) {
        (self.low, self.high)
    }

    pub closed spec fn standing(self) -> Standing {
        Standing { status: self.status, since: self.since }
    }

    /// The record that a request of `requester` to `target` creates.
    pub fn pending(requester: i64, target: i64, now: i64) -> (made: Result<
        Relationship,
        RelationError,
    >)
        ensures
            match made {
                Ok(r) => requester != target && r.key() == canonical_pair(requester, target)
                    && r.standing() == (Standing {
                    status: RelationStatus::requested_by_spec(requester, target),
                    since: now,
                }),
                Err(e) => requester == target && e == RelationError::SelfRequest,
            },
    {
        if requester == target {
            Err(RelationError::SelfRequest)
        } else {
            let (low, high) = get_relation_pk(requester, target);
            Ok(
                Relationship {
                    low,
                    high,
                    status: RelationStatus::requested_by(requester, target),
                    since: now,
                },
            )
        }
    }

    /// The record as it is stored under the canonical pair `(low, high)`.
    pub(crate) fn stored(low: i64, high: i64, status: RelationStatus, since: i64) -> (row:
        Relationship)
        requires
            low < high,
        ensures
            row.key() == (low, high),
            row.standing() == (Standing { status, since }),
    {
        Relationship { low, high, status, since }
    }

    /// The smaller of the two accounts.
    pub fn low_id(&self) -> (id: i64)
        ensures
            id == self.key().0,
            id < self.key().1,
    {
        proof {
            use_type_invariant(self);
        }
        self.low
    }

    /// The larger of the two accounts.
    pub fn high_id(&self) -> (id: i64)
        ensures
            id == self.key().1,
            self.key().0 < id,
    {
        proof {
            use_type_invariant(self);
        }
        self.high
    }

    pub fn status(&self) -> (status: RelationStatus)
        ensures
            status == self.standing().status,
    {
        self.status
    }

    /// When the status last changed.
    pub fn since(&self) -> (since: i64)
        ensures
            since == self.standing().since,
    {
        self.since
    }
}

} // verus!
