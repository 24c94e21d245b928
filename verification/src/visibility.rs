//! The disclosure setting that an owner attaches to a journal or a profile.
//! An entry has none of its own: it is read under the policy of the journal
//! that holds it.

use vstd::prelude::*;
use vstd::utf8::{encode_utf8, encode_utf8_decode_utf8};
use crate::errors::ColumnError;
use crate::text::bytes_equal;

verus! {

#[derive(Clone, Copy, Debug, PartialEq, Eq, Structural)]
pub enum Visibility {
    /// Anyone may read.
    Public,
    /// Only the owner may read.
    Private,
    /// The owner and the owner's friends may read.
    Friends,
}

impl Visibility {
    /// The label under which the policy is stored.
    pub open spec fn label(self) -> Seq<char> {
        match self {
            Visibility::Public => "public"@,
            Visibility::Private => "private"@,
            Visibility::Friends => "friends"@,
        }
    }

    /// The policy that a stored byte string names, if any.
    pub open spec fn named_by(bytes: Seq<u8>) -> Option<Visibility> {
        if bytes == encode_utf8(Visibility::Public.label()) {
            Some(Visibility::Public)
        } else if bytes == encode_utf8(Visibility::Private.label()) {
            Some(Visibility::Private)
        } else if bytes == encode_utf8(Visibility::Friends.label()) {
            Some(Visibility::Friends)
        } else {
            None
        }
    }

    /// What `from_sql` returns for a column value.
    pub open spec fn from_sql_spec(bytes: Option<Seq<u8>>) -> Result<Visibility, ColumnError> {
        match bytes {
            None => Err(ColumnError::UnexpectedNull),
            Some(b) => match Visibility::named_by(b) {
                Some(policy) => Ok(policy),
                None => Err(ColumnError::UnrecognizedVariant),
            },
        }
    }

    /// The policy of a journal whose creator chose none.
    pub open spec fn or_private_spec(chosen: Option<Visibility>) -> Visibility {
        match chosen {
            Some(policy) => policy,
            None => Visibility::Private,
        }
    }

    /// The label to store for this policy.
    pub fn to_sql(&self) -> (label: &'static str)
        ensures
            label@ == self.label(),
    {
        match self {
            Visibility::Public => "public",
            Visibility::Private => "private",
            Visibility::Friends => "friends",
        }
    }

    /// Reads a policy back from a stored column value.
    pub fn from_sql(bytes: Option<&[u8]>) -> (policy: Result<Visibility, ColumnError>)
        ensures
            policy == Visibility::from_sql_spec(
                match bytes {
                    Some(b) => Some(b@),
                    None => None,
                },
            ),
    {
        match bytes {
            None => Err(ColumnError::UnexpectedNull),
            Some(b) => {
                if bytes_equal(b, "public".as_bytes()) {
                    Ok(Visibility::Public)
                } else if bytes_equal(b, "private".as_bytes()) {
                    Ok(Visibility::Private)
                } else if bytes_equal(b, "friends".as_bytes()) {
                    Ok(Visibility::Friends)
                } else {
                    Err(ColumnError::UnrecognizedVariant)
                }
            },
        }
    }

    /// The policy of a new journal: the one its creator chose, and `Private`
    /// when none was chosen.
    pub fn or_private(chosen: Option<Visibility>) -> (policy: Visibility)
        ensures
            policy == Visibility::or_private_spec(chosen),
    {
        match chosen {
            Some(policy) => policy,
            None => Visibility::Private,
        }
    }
}

/// No two policies share a label.
pub proof fn visibility_labels_differ(a: Visibility, b: Visibility)
    requires
        a != b,
    ensures
        a.label() != b.label(),
        encode_utf8(a.label()) != encode_utf8(b.label()),
{
    reveal_strlit("public");
    reveal_strlit("private");
    reveal_strlit("friends");
    assert(a.label().len() != b.label().len() || a.label()[0] != b.label()[0]);
    encode_utf8_decode_utf8(a.label());
    encode_utf8_decode_utf8(b.label());
}

/// A policy written with `to_sql` is read back by `from_sql` as itself, and
/// a column value is read as a policy only if it is that policy's label.
pub proof fn visibility_label_round_trip(policy: Visibility)
    ensures
        Visibility::from_sql_spec(Some(encode_utf8(policy.label()))) == Ok::<
            Visibility,
            ColumnError,
        >(policy),
        forall|bytes: Seq<u8>|
            Visibility::named_by(bytes) == Some(policy) ==> bytes == encode_utf8(policy.label()),
{
    assert forall|other: Visibility| other != policy implies encode_utf8(
        #[trigger] other.label(),
    ) != encode_utf8(policy.label()) by {
        visibility_labels_differ(other, policy);
    }
}

} // verus!
