//! The boundary to the storage that holds the relationships.
//!
//! Each transition is one statement: an insert that relies on the pair being
//! unique, or an update or delete that is gated on the status it expects to
//! find. The functions here decide which statement to issue and what the
//! storage's report means; issuing it is the caller's part. Because check and
//! change are one statement, of two racing calls on one pair at most one
//! changes a row, and the other is told so.

use vstd::prelude::*;
use crate::errors::{DbErrorKind, DbFailure, DbFailureView, Error, ErrorView, RelationError};
use crate::pair::{canonical_pair, get_relation_pk};
use crate::relationships::{
    accept_request_spec, deny_request_spec, remove_friendship_spec, send_request_spec, Outcome,
    Relations, Standing,
};
use crate::status::RelationStatus;

verus! {

/// One statement against the table of relationships, keyed by the canonical
/// pair `(low, high)`.
#[derive(Clone, Copy, Debug, PartialEq, Eq, Structural)]
pub enum WriteIntent {
    /// Insert the pair with `status`; the storage refuses a pair it already
    /// holds.
    Insert { low: i64, high: i64, status: RelationStatus },
    /// Set the pair's status to `status` if it is `expected` now.
    UpdateIf { low: i64, high: i64, expected: RelationStatus, status: RelationStatus },
    /// Delete the pair if its status is `expected` now.
    DeleteIf { low: i64, high: i64, expected: RelationStatus },
}

/// What the storage says of a statement it was given.
#[derive(Clone, Copy, Debug, PartialEq, Eq, Structural)]
pub enum WriteReport {
    /// The statement ran and changed this many rows.
    Changed(usize),
    /// The insert met a pair that is already there.
    Duplicate,
    /// The storage could not run the statement.
    Unavailable,
}

/// A state of the relationships together with the storage's report.
pub struct Effect {
    pub relations: Relations,
    pub report: WriteReport,
}

impl WriteIntent {
    pub open spec fn key(self) -> (i64, i64) {
        match self {
            WriteIntent::Insert { low, high, .. } => (low, high),
            WriteIntent::UpdateIf { low, high, .. } => (low, high),
            WriteIntent::DeleteIf { low, high, .. } => (low, high),
        }
    }

    /// What it means for the caller that the statement changed nothing.
    pub open spec fn refusal(self) -> RelationError {
        match self {
            WriteIntent::Insert { .. } => RelationError::AlreadyExists,
            WriteIntent::UpdateIf { .. } => RelationError::NoSuchRequest,
            WriteIntent::DeleteIf { expected, .. } => if expected == RelationStatus::Friends {
                RelationError::NotFriends
            } else {
                RelationError::NoSuchRequest
            },
        }
    }

    /// What a storage that keeps one row per pair does with the statement at
    /// time `now`.
    pub open spec fn effect(self, relations: Relations, now: i64) -> Effect {
        match self {
            WriteIntent::Insert { low, high, status } => if relations.dom().contains((low, high)) {
                Effect { relations, report: WriteReport::Duplicate }
            } else {
                Effect {
                    relations: relations.insert((low, high), Standing { status, since: now }),
                    report: WriteReport::Changed(1),
                }
            },
            WriteIntent::UpdateIf { low, high, expected, status } => if relations.dom().contains(
                (low, high),
            ) && relations[(low, high)].status == expected {
                Effect {
                    relations: relations.insert((low, high), Standing { status, since: now }),
                    report: WriteReport::Changed(1),
                }
            } else {
                Effect { relations, report: WriteReport::Changed(0) }
            },
            WriteIntent::DeleteIf { low, high, expected } => if relations.dom().contains(
                (low, high),
            ) && relations[(low, high)].status == expected {
                Effect { relations: relations.remove((low, high)), report: WriteReport::Changed(1) }
            } else {
                Effect { relations, report: WriteReport::Changed(0) }
            },
        }
    }
}

/// The statement for a request of `requester` to `target`.
pub open spec fn plan_send_request_spec(requester: i64, target: i64) -> Result<
    WriteIntent,
    RelationError,
> {
    if requester == target {
        Err(RelationError::SelfRequest)
    } else {
        Ok(
            WriteIntent::Insert {
                low: canonical_pair(requester, target).0,
                high: canonical_pair(requester, target).1,
                status: RelationStatus::requested_by_spec(requester, target),
            },
        )
    }
}

/// The statement by which `accepter` accepts the request of `requester`.
pub open spec fn plan_accept_request_spec(accepter: i64, requester: i64) -> Result<
    WriteIntent,
    RelationError,
> {
    if accepter == requester {
        Err(RelationError::InvalidPair)
    } else {
        Ok(
            WriteIntent::UpdateIf {
                low: canonical_pair(accepter, requester).0,
                high: canonical_pair(accepter, requester).1,
                expected: RelationStatus::awaiting_spec(accepter, requester),
                status: RelationStatus::Friends,
            },
        )
    }
}

/// The statement by which `decliner` turns down the request of `requester`.
pub open spec fn plan_deny_request_spec(decliner: i64, requester: i64) -> Result<
    WriteIntent,
    RelationError,
> {
    if decliner == requester {
        Err(RelationError::InvalidPair)
    } else {
        Ok(
            WriteIntent::DeleteIf {
                low: canonical_pair(decliner, requester).0,
                high: canonical_pair(decliner, requester).1,
                expected: RelationStatus::awaiting_spec(decliner, requester),
            },
        )
    }
}

/// The statement that ends the friendship of `a` and `b`.
pub open spec fn plan_remove_friendship_spec(a: i64, b: i64) -> Result<
    WriteIntent,
    RelationError,
> {
    if a == b {
        Err(RelationError::InvalidPair)
    } else {
        Ok(
            WriteIntent::DeleteIf {
                low: canonical_pair(a, b).0,
                high: canonical_pair(a, b).1,
                expected: RelationStatus::Friends,
            },
        )
    }
}

/// What the caller is told once the storage has reported on `intent`.
pub open spec fn conclude_spec(intent: WriteIntent, report: WriteReport) -> Result<
    (),
    RelationError,
> {
    match report {
        WriteReport::Changed(rows) => if rows > 0 {
            Ok(())
        } else {
            Err(intent.refusal())
        },
        WriteReport::Duplicate => Err(RelationError::AlreadyExists),
        WriteReport::Unavailable => Err(RelationError::StorageUnavailable),
    }
}

pub fn plan_send_request(requester: i64, target: i64) -> (plan: Result<WriteIntent, RelationError>)
    ensures
        plan == plan_send_request_spec(requester, target),
{
    if requester == target {
        return Err(RelationError::SelfRequest);
    }
    let (low, high) = get_relation_pk(requester, target);
    Ok(WriteIntent::Insert { low, high, status: RelationStatus::requested_by(requester, target) })
}

pub fn plan_accept_request(accepter: i64, requester: i64) -> (plan: Result<
    WriteIntent,
    RelationError,
>)
    ensures
        plan == plan_accept_request_spec(accepter, requester),
{
    if accepter == requester {
        return Err(RelationError::InvalidPair);
    }
    let (low, high) = get_relation_pk(accepter, requester);
    Ok(
        WriteIntent::UpdateIf {
            low,
            high,
            expected: RelationStatus::awaiting(accepter, requester),
            status: RelationStatus::Friends,
        },
    )
}

pub fn plan_deny_request(decliner: i64, requester: i64) -> (plan: Result<
    WriteIntent,
    RelationError,
>)
    ensures
        plan == plan_deny_request_spec(decliner, requester),
{
    if decliner == requester {
        return Err(RelationError::InvalidPair);
    }
    let (low, high) = get_relation_pk(decliner, requester);
    Ok(WriteIntent::DeleteIf { low, high, expected: RelationStatus::awaiting(decliner, requester) })
}

pub fn plan_remove_friendship(a: i64, b: i64) -> (plan: Result<WriteIntent, RelationError>)
    ensures
        plan == plan_remove_friendship_spec(a, b),
{
    if a == b {
        return Err(RelationError::InvalidPair);
    }
    let (low, high) = get_relation_pk(a, b);
    Ok(WriteIntent::DeleteIf { low, high, expected: RelationStatus::Friends })
}

/// Turns the storage's report on `intent` into the caller's answer.
pub fn conclude(intent: &WriteIntent, report: WriteReport) -> (answer: Result<(), RelationError>)
    ensures
        answer == conclude_spec(*intent, report),
{
    match report {
        WriteReport::Changed(rows) => {
            if rows > 0 {
                Ok(())
            } else {
                match intent {
                    WriteIntent::Insert { .. } => Err(RelationError::AlreadyExists),
                    WriteIntent::UpdateIf { .. } => Err(RelationError::NoSuchRequest),
                    WriteIntent::DeleteIf { expected, .. } => {
                        if *expected == RelationStatus::Friends {
                            Err(RelationError::NotFriends)
                        } else {
                            Err(RelationError::NoSuchRequest)
                        }
                    },
                }
            }
        },
        WriteReport::Duplicate => Err(RelationError::AlreadyExists),
        WriteReport::Unavailable => Err(RelationError::StorageUnavailable),
    }
}

/// How the outcome of running a statement is read: the rows it changed, a
/// violated uniqueness as a duplicate, and any other failure as the storage
/// being unavailable.
pub open spec fn report_of_spec(outcome: Result<usize, DbFailureView>) -> WriteReport {
    match outcome {
        Ok(rows) => WriteReport::Changed(rows),
        Err(DbFailureView::Database { kind: DbErrorKind::UniqueViolation, .. }) =>
            WriteReport::Duplicate,
        Err(_) => WriteReport::Unavailable,
    }
}

/// Reads the outcome of running a statement.
pub fn report_of(outcome: Result<usize, DbFailure>) -> (report: WriteReport)
    ensures
        report == report_of_spec(
            match outcome {
                Ok(rows) => Ok(rows),
                Err(failure) => Err(failure@),
            },
        ),
{
    match outcome {
        Ok(rows) => WriteReport::Changed(rows),
        Err(DbFailure::Database { kind: DbErrorKind::UniqueViolation, .. }) =>
            WriteReport::Duplicate,
        Err(_) => WriteReport::Unavailable,
    }
}

/// What the caller of a request is told once the statement has been run.
/// The rows changed and a violated uniqueness are concluded as the state
/// machine says; any other failure is answered as a failed query is.
pub open spec fn answer_spec(intent: WriteIntent, outcome: Result<usize, DbFailureView>) -> Result<
    (),
    ErrorView,
> {
    match report_of_spec(outcome) {
        WriteReport::Unavailable => match outcome {
            Err(failure) => Err(ErrorView::of_db(failure)),
            Ok(_) => Ok(()),
        },
        report => match conclude_spec(intent, report) {
            Ok(_) => Ok(()),
            Err(refusal) => Err(ErrorView::of_relation(refusal)),
        },
    }
}

/// Answers the request behind `intent` from the outcome of running it.
pub fn answer(intent: &WriteIntent, outcome: Result<usize, DbFailure>) -> (answer: Result<
    (),
    Error,
>)
    ensures
        match answer {
            Ok(_) => answer_spec(
                *intent,
                match outcome {
                    Ok(rows) => Ok(rows),
                    Err(failure) => Err(failure@),
                },
            ) is Ok,
            Err(e) => answer_spec(
                *intent,
                match outcome {
                    Ok(rows) => Ok(rows),
                    Err(failure) => Err(failure@),
                },
            ) == Err::<(), ErrorView>(e@),
        },
{
    match outcome {
        Ok(rows) => match conclude(intent, WriteReport::Changed(rows)) {
            Ok(_) => Ok(()),
            Err(refusal) => Err(Error::from_relation(refusal)),
        },
        Err(DbFailure::Database { kind: DbErrorKind::UniqueViolation, .. }) => Err(
            Error::from_relation(RelationError::AlreadyExists),
        ),
        Err(failure) => Err(Error::from_db(failure)),
    }
}

/// What planning, one faithful run of the statement, and concluding amount to.
pub open spec fn carried_out(
    plan: Result<WriteIntent, RelationError>,
    relations: Relations,
    now: i64,
) -> Outcome {
    match plan {
        Err(refused) => Outcome { relations, result: Err(refused) },
        Ok(intent) => Outcome {
            relations: intent.effect(relations, now).relations,
            result: conclude_spec(intent, intent.effect(relations, now).report),
        },
    }
}

/// A storage that runs each planned statement as `effect` describes takes the
/// relationships through exactly the transitions of the state machine, with
/// the same answers.
pub proof fn planned_writes_realize_transitions(relations: Relations, x: i64, y: i64, now: i64)
    ensures
        carried_out(plan_send_request_spec(x, y), relations, now) == send_request_spec(
            relations,
            x,
            y,
            now,
        ),
        carried_out(plan_accept_request_spec(x, y), relations, now) == accept_request_spec(
            relations,
            x,
            y,
            now,
        ),
        carried_out(plan_deny_request_spec(x, y), relations, now) == deny_request_spec(
            relations,
            x,
            y,
        ),
        carried_out(plan_remove_friendship_spec(x, y), relations, now) == remove_friendship_spec(
            relations,
            x,
            y,
        ),
{
}

/// Every planned statement is keyed by a canonical pair.
pub proof fn planned_writes_are_canonical(x: i64, y: i64)
    ensures
        plan_send_request_spec(x, y) matches Ok(intent) ==> intent.key().0 < intent.key().1,
        plan_accept_request_spec(x, y) matches Ok(intent) ==> intent.key().0 < intent.key().1,
        plan_deny_request_spec(x, y) matches Ok(intent) ==> intent.key().0 < intent.key().1,
        plan_remove_friendship_spec(x, y) matches Ok(intent) ==> intent.key().0 < intent.key().1,
{
}

} // verus!
