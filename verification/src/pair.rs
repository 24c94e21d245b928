//! One key for each unordered pair of accounts.

use vstd::prelude::*;
use crate::errors::RelationError;

verus! {

/// The two identifiers in ascending order.
pub open spec fn canonical_pair(a: i64, b: i64) -> (i64, i64) {
    if a < b {
        (a, b)
    } else {
        (b, a)
    }
}

/// What `canonicalize` returns: the ordered key of two distinct accounts, and
/// a refusal for an account paired with itself.
pub open spec fn canonicalize_spec(a: i64, b: i64) -> Result<(i64, i64), RelationError> {
    if a == b {
        Err(RelationError::InvalidPair)
    } else {
        Ok(canonical_pair(a, b))
    }
}

/// Orders two identifiers ascending, without judging whether they differ.
pub fn get_relation_pk(id1: i64, id2: i64) -> (pair: (i64, i64))
    ensures
        pair == canonical_pair(id1, id2),
{
    if id1 < id2 {
        (id1, id2)
    } else {
        (id2, id1)
    }
}

/// The key under which the relationship of `a` and `b` is kept.
pub fn canonicalize(a: i64, b: i64) -> (key: Result<(i64, i64), RelationError>)
    ensures
        key == canonicalize_spec(a, b),
{
    if a == b {
        Err(RelationError::InvalidPair)
    } else {
        Ok(get_relation_pk(a, b))
    }
}

/// The key of two distinct accounts does not depend on the order in which
/// they are named, and its first component is the smaller identifier.
pub proof fn canonicalize_ignores_order(a: i64, b: i64)
    requires
        a != b,
    ensures
        canonicalize_spec(a, b) == canonicalize_spec(b, a),
        canonicalize_spec(a, b) matches Ok(key) && key.0 < key.1,
        canonicalize_spec(a, b) matches Ok(key) && (key == (a, b) || key == (b, a)),
{
}

} // verus!
