//! The status of the relationship between two accounts.
//!
//! "First" is the account of the pair with the smaller identifier and
//! "second" the one with the larger: a pending status says who asked whom by
//! position in the canonical pair, not by role.

use vstd::prelude::*;
use vstd::utf8::{encode_utf8, encode_utf8_decode_utf8};
use crate::errors::ColumnError;
use crate::text::bytes_equal;

verus! {

#[derive(Clone, Copy, Debug, PartialEq, Eq, Structural)]
pub enum RelationStatus {
    /// The smaller account has asked the larger one.
    PendingFirstSecond,
    /// The larger account has asked the smaller one.
    PendingSecondFirst,
    Friends,
    BlockFirstSecond,
    BlockSecondFirst,
    BlockBoth,
}

impl RelationStatus {
    /// The label under which the status is stored.
    pub open spec fn label(self) -> Seq<char> {
        match self {
            RelationStatus::PendingFirstSecond => "pending_first_second"@,
            RelationStatus::PendingSecondFirst => "pending_second_first"@,
            RelationStatus::Friends => "friends"@,
            RelationStatus::BlockFirstSecond => "block_first_second"@,
            RelationStatus::BlockSecondFirst => "block_second_first"@,
            RelationStatus::BlockBoth => "block_both"@,
        }
    }

    /// The status that a stored byte string names, if any.
    pub open spec fn named_by(bytes: Seq<u8>) -> Option<RelationStatus> {
        if bytes == encode_utf8(RelationStatus::PendingFirstSecond.label()) {
            Some(RelationStatus::PendingFirstSecond)
        } else if bytes == encode_utf8(RelationStatus::PendingSecondFirst.label()) {
            Some(RelationStatus::PendingSecondFirst)
        } else if bytes == encode_utf8(RelationStatus::Friends.label()) {
            Some(RelationStatus::Friends)
        } else if bytes == encode_utf8(RelationStatus::BlockFirstSecond.label()) {
            Some(RelationStatus::BlockFirstSecond)
        } else if bytes == encode_utf8(RelationStatus::BlockSecondFirst.label()) {
            Some(RelationStatus::BlockSecondFirst)
        } else if bytes == encode_utf8(RelationStatus::BlockBoth.label()) {
            Some(RelationStatus::BlockBoth)
        } else {
            None
        }
    }

    /// What `from_sql` returns for a column value.
    pub open spec fn from_sql_spec(bytes: Option<Seq<u8>>) -> Result<RelationStatus, ColumnError> {
        match bytes {
            None => Err(ColumnError::UnexpectedNull),
            Some(b) => match RelationStatus::named_by(b) {
                Some(status) => Ok(status),
                None => Err(ColumnError::UnrecognizedVariant),
            },
        }
    }

    /// Whether the status is one of the two pending ones.
    pub open spec fn is_pending_spec(self) -> bool {
        self == RelationStatus::PendingFirstSecond || self == RelationStatus::PendingSecondFirst
    }

    /// The pending status of a request that `requester` sends to `target`.
    pub open spec fn requested_by_spec(requester: i64, target: i64) -> RelationStatus {
        if requester < target {
            RelationStatus::PendingFirstSecond
        } else {
            RelationStatus::PendingSecondFirst
        }
    }

    /// The pending status in which `recipient` is the one who was asked by
    /// `requester`.
    pub open spec fn awaiting_spec(recipient: i64, requester: i64) -> RelationStatus {
        if recipient < requester {
            RelationStatus::PendingSecondFirst
        } else {
            RelationStatus::PendingFirstSecond
        }
    }

    /// The label to store for this status.
    pub fn to_sql(&self) -> (label: &'static str)
        ensures
            label@ == self.label(),
    {
        match self {
            RelationStatus::PendingFirstSecond => "pending_first_second",
            RelationStatus::PendingSecondFirst => "pending_second_first",
            RelationStatus::Friends => "friends",
            RelationStatus::BlockFirstSecond => "block_first_second",
            RelationStatus::BlockSecondFirst => "block_second_first",
            RelationStatus::BlockBoth => "block_both",
        }
    }

    /// Reads a status back from a stored column value.
    pub fn from_sql(bytes: Option<&[u8]>) -> (status: Result<RelationStatus, ColumnError>)
        ensures
            status == RelationStatus::from_sql_spec(
                match bytes {
                    Some(b) => Some(b@),
                    None => None,
                },
            ),
    {
        match bytes {
            None => Err(ColumnError::UnexpectedNull),
            Some(b) => {
                if bytes_equal(b, "pending_first_second".as_bytes()) {
                    Ok(RelationStatus::PendingFirstSecond)
                } else if bytes_equal(b, "pending_second_first".as_bytes()) {
                    Ok(RelationStatus::PendingSecondFirst)
                } else if bytes_equal(b, "friends".as_bytes()) {
                    Ok(RelationStatus::Friends)
                } else if bytes_equal(b, "block_first_second".as_bytes()) {
                    Ok(RelationStatus::BlockFirstSecond)
                } else if bytes_equal(b, "block_second_first".as_bytes()) {
                    Ok(RelationStatus::BlockSecondFirst)
                } else if bytes_equal(b, "block_both".as_bytes()) {
                    Ok(RelationStatus::BlockBoth)
                } else {
                    Err(ColumnError::UnrecognizedVariant)
                }
            },
        }
    }

    pub fn is_pending(&self) -> (pending: bool)
        ensures
            pending == self.is_pending_spec(),
    {
        match self {
            RelationStatus::PendingFirstSecond | RelationStatus::PendingSecondFirst => true,
            _ => false,
        }
    }

    /// The pending status of a request that `requester` sends to `target`.
    pub fn requested_by(requester: i64, target: i64) -> (status: RelationStatus)
        ensures
            status == RelationStatus::requested_by_spec(requester, target),
    {
        if requester < target {
            RelationStatus::PendingFirstSecond
        } else {
            RelationStatus::PendingSecondFirst
        }
    }

    /// The status that must hold for `recipient` to accept or deny a request
    /// of `requester`.
    pub fn awaiting(recipient: i64, requester: i64) -> (status: RelationStatus)
        ensures
            status == RelationStatus::awaiting_spec(recipient, requester),
    {
        if recipient < requester {
            RelationStatus::PendingSecondFirst
        } else {
            RelationStatus::PendingFirstSecond
        }
    }
}

/// No two statuses share a label.
pub proof fn status_labels_differ(a: RelationStatus, b: RelationStatus)
    requires
        a != b,
    ensures
        a.label() != b.label(),
        encode_utf8(a.label()) != encode_utf8(b.label()),
{
    reveal_strlit("pending_first_second");
    reveal_strlit("pending_second_first");
    reveal_strlit("friends");
    reveal_strlit("block_first_second");
    reveal_strlit("block_second_first");
    reveal_strlit("block_both");
    assert(a.label().len() != b.label().len() || a.label()[8] != b.label()[8]);
    encode_utf8_decode_utf8(a.label());
    encode_utf8_decode_utf8(b.label());
}

/// A status written with `to_sql` is read back by `from_sql` as itself, and
/// a column value is read as a status only if it is that status's label.
pub proof fn status_label_round_trip(status: RelationStatus)
    ensures
        RelationStatus::from_sql_spec(Some(encode_utf8(status.label()))) == Ok::<
            RelationStatus,
            ColumnError,
        >(status),
        forall|bytes: Seq<u8>|
            RelationStatus::named_by(bytes) == Some(status) ==> bytes == encode_utf8(
                status.label(),
            ),
{
    status_labels_differ_from_all(status);
}

proof fn status_labels_differ_from_all(status: RelationStatus)
    ensures
        forall|other: RelationStatus|
            other != status ==> encode_utf8(#[trigger] other.label()) != encode_utf8(
                status.label(),
            ),
{
    assert forall|other: RelationStatus| other != status implies encode_utf8(
        #[trigger] other.label(),
    ) != encode_utf8(status.label()) by {
        status_labels_differ(other, status);
    }
}

/// The status that a request creates is the one its recipient must find in
/// order to answer it, and the requester itself never finds it so.
pub proof fn request_awaits_its_recipient(requester: i64, target: i64)
    requires
        requester != target,
    ensures
        RelationStatus::awaiting_spec(target, requester) == RelationStatus::requested_by_spec(
            requester,
            target,
        ),
        RelationStatus::awaiting_spec(requester, target) != RelationStatus::requested_by_spec(
            requester,
            target,
        ),
{
}

} // verus!
